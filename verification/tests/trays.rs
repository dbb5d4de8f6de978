use audio_stream::status::{bit_rate, receiver_status, sender_status, BitRate};
use audio_stream::stream::{
    parse_stats, stats_from_captures, ConnectedStream, DiscoveryEvent, DiscoveryResult, LineStep,
    OutputEvent, StatsStep, StreamDiscoverer, StreamStats,
};
use audio_stream::tray::{StatMenuItems, Tray};

fn kbps(text: &str) -> BitRate {
    BitRate::Kbps(text.to_string())
}

fn found(tray: &mut Tray, name: &str, addr: &str, id: &str) {
    tray.on_discovered(name.to_string(), addr.to_string(), id.to_string());
}

fn two_receivers() -> Tray {
    let mut tray = Tray::setup();
    found(&mut tray, "attic", "10.0.0.2:1", "7");
    found(&mut tray, "cellar", "10.0.0.3:1", "8");
    tray
}

#[test]
fn status_lines_are_exact() {
    assert_eq!(
        sender_status(44100, 2048, &kbps("1411")),
        "\x1B[K[\x1B[34mCONNECTED\x1B[0m] Sender | 44100 Hz, 2048 samples/buffer, 1411 kbps\r"
    );
    assert_eq!(
        receiver_status("10.0.0.2:4711", "12", 48000, 512, &BitRate::Silent),
        "\x1B[K[\x1B[34mCONNECTED\x1B[0m] Receiving from 10.0.0.2:4711, 12ms network latency | \
         48000 Hz, 512 samples/buffer, 1 kbps, silence detected\r"
    );
}

#[test]
fn silence_has_a_rate_of_its_own() {
    assert!(matches!(bit_rate(true, "1411".to_string()), BitRate::Silent));
    match bit_rate(false, "1411".to_string()) {
        BitRate::Kbps(number) => assert_eq!(number, "1411"),
        _ => panic!("the number is shown"),
    }
}

#[test]
fn sender_status_is_read_back() {
    let line = sender_status(44100, 2048, &kbps("1411"));
    let stats = parse_stats(line.as_bytes()).unwrap();
    assert_eq!(stats.sample_rate, "44100");
    assert_eq!(stats.buffer_size, "2048");
    assert_eq!(stats.bitrate, "1411");
    let line = sender_status(1, 0, &BitRate::Silent);
    let stats = parse_stats(line.as_bytes()).unwrap();
    assert_eq!(stats.sample_rate, "1");
    assert_eq!(stats.buffer_size, "0");
    assert_eq!(stats.bitrate, "1");
}

#[test]
fn line_without_all_statistics_has_none() {
    assert!(parse_stats(b"").is_none());
    assert!(parse_stats(b"44100 Hz, 2048 samples/buffer").is_none());
    assert!(parse_stats(sender_status(44100, 2048, &kbps("inf")).as_bytes()).is_none());
    assert!(parse_stats(b"44100Hz, 2048 samples/buffer, 3 kbps").is_none());
}

#[test]
fn first_number_before_the_unit_counts() {
    let stats = parse_stats(b"12a3 4567 Hz 8 Hz 9 samples/buffer 0 kbps 1 kbps").unwrap();
    assert_eq!(stats.sample_rate, "4567");
    assert_eq!(stats.buffer_size, "9");
    assert_eq!(stats.bitrate, "0");
}

#[test]
fn digits_of_other_scripts_count() {
    let line = "\u{664}\u{665} Hz, 2 samples/buffer, 3 kbps";
    assert_eq!(parse_stats(line.as_bytes()).unwrap().sample_rate, "\u{664}\u{665}");
}

#[test]
fn invalid_bytes_do_not_stop_the_reading() {
    let mut line = vec![0xff, 0xfe];
    line.extend_from_slice(b"1 Hz, 2 samples/buffer, 3 kbps\r");
    let stats = parse_stats(&line).unwrap();
    assert_eq!(stats.bitrate, "3");
}

#[test]
fn statistics_need_all_three() {
    let some = |s: &str| Some(s.to_string());
    assert!(stats_from_captures(some("1"), some("2"), some("3")).is_some());
    assert!(stats_from_captures(None, some("2"), some("3")).is_none());
    assert!(stats_from_captures(some("1"), None, some("3")).is_none());
    assert!(stats_from_captures(some("1"), some("2"), None).is_none());
}

#[test]
fn reading_a_sender_ends() {
    assert!(matches!(ConnectedStream::on_read(None, b""), StatsStep::Finish));
    assert!(matches!(ConnectedStream::on_read(Some(0), b""), StatsStep::Finish));
    assert!(matches!(ConnectedStream::on_read(Some(3), b"abc"), StatsStep::Wait));
    let line = sender_status(44100, 2048, &kbps("9"));
    match ConnectedStream::on_read(Some(line.len()), line.as_bytes()) {
        StatsStep::Report(stats) => assert_eq!(stats.bitrate, "9"),
        _ => panic!("the statistics are reported"),
    }
}

#[test]
fn discovery_output_is_read_by_lines() {
    match StreamDiscoverer::on_line(9, " \t{\"a\":1}\u{a0}\r\n") {
        LineStep::Parse(text) => assert_eq!(text, "{\"a\":1}"),
        _ => panic!("the line is parsed"),
    }
    match StreamDiscoverer::on_line(1, "\n") {
        LineStep::Parse(text) => assert_eq!(text, ""),
        _ => panic!("a line without text is parsed too"),
    }
    assert!(matches!(StreamDiscoverer::on_line(0, ""), LineStep::End));
}

fn result(event: DiscoveryEvent, name: &str, addr: &str) -> DiscoveryResult {
    DiscoveryResult { event, name: name.to_string(), addr: addr.to_string() }
}

#[test]
fn reports_end_with_the_first_failure() {
    let mut discoverer = StreamDiscoverer::new();
    let lost = result(DiscoveryEvent::Lost, "a", "10.0.0.1:9080");
    let report = discoverer.recv(OutputEvent::Line(Ok(lost))).unwrap().unwrap();
    assert_eq!(report.event, DiscoveryEvent::Lost);
    assert_eq!(report.name, "a");
    assert_eq!(report.addr, "10.0.0.1:9080");
    assert!(!discoverer.ended());
    let words = discoverer.recv(OutputEvent::Line(Err("no JSON".to_string()))).unwrap();
    assert_eq!(words.err().unwrap(), "Error in discovery task: no JSON");
    assert!(discoverer.ended());
    let found = result(DiscoveryEvent::Discovered, "b", "10.0.0.2:9080");
    assert!(discoverer.recv(OutputEvent::Line(Ok(found))).is_none());
    assert!(discoverer.recv(OutputEvent::End).is_none());
}

#[test]
fn end_and_failure_of_the_program_are_reported() {
    let words = StreamDiscoverer::new().recv(OutputEvent::End).unwrap().err().unwrap();
    assert_eq!(words, "Error in discovery task: Discovery task died");
    let failed = OutputEvent::Failed("gone".to_string());
    let words = StreamDiscoverer::new().recv(failed).unwrap().err().unwrap();
    assert_eq!(words, "Error in discovery task: gone");
}

#[test]
fn new_checkbox_is_on_top_and_unchecked() {
    let checkbox = Tray::new_checkbox(&"attic".to_string());
    assert_eq!(checkbox.text, "attic");
    assert_eq!(checkbox.position, 0);
    assert!(checkbox.enabled);
    assert!(!checkbox.checked);
}

#[test]
fn programs_have_their_arguments() {
    assert_eq!(*StreamDiscoverer::new().args(), ["discover", "-p", "9080", "--json"]);
    assert_eq!(
        ConnectedStream::connect("10.0.0.2:9080".to_string()).args,
        [
            "send", "-p", "9080", "-d", "BlackHole 2ch", "-a", "10.0.0.2:9080", "--sample-rate",
            "44100", "--buffer-size", "2048"
        ]
    );
}

#[test]
fn lines_start_clear() {
    let mut items = StatMenuItems::new();
    assert_eq!(items.status, "Status: Not connected");
    assert_eq!(items.sample_rate, "Sample rate: N/A");
    assert_eq!(items.buffer_size, "Buffer size: N/A");
    assert_eq!(items.bitrate, "Bitrate: N/A");
    items.show(&StreamStats {
        sample_rate: "44100".to_string(),
        buffer_size: "2048".to_string(),
        bitrate: "1411".to_string(),
    });
    assert_eq!(items.status, "Status: Not connected");
    assert_eq!(items.sample_rate, "Sample rate: 44100 Hz");
    assert_eq!(items.buffer_size, "Buffer size: 2048 samples/buffer");
    assert_eq!(items.bitrate, "Bitrate: 1411 kbps");
    items.clear();
    assert_eq!(items.bitrate, "Bitrate: N/A");
}

#[test]
fn click_starts_a_sender() {
    let mut tray = two_receivers();
    let plan = tray.on_menu_event(&"8".to_string(), true);
    assert!(!plan.kill);
    assert_eq!(plan.clicked, Some(1));
    assert_eq!(plan.uncheck, ["7"]);
    assert_eq!(plan.connect, Some("10.0.0.3:1".to_string()));
    assert_eq!(tray.stats().status, "Status: Not connected");
    tray.on_connected();
    assert_eq!(tray.stats().status, "Status: Active");
}

#[test]
fn second_click_ends_the_sender() {
    let mut tray = two_receivers();
    let _ = tray.on_menu_event(&"8".to_string(), true);
    tray.on_connected();
    tray.on_stats(&StreamStats {
        sample_rate: "1".to_string(),
        buffer_size: "2".to_string(),
        bitrate: "3".to_string(),
    });
    assert_eq!(tray.stats().bitrate, "Bitrate: 3 kbps");
    let plan = tray.on_menu_event(&"8".to_string(), false);
    assert!(plan.kill);
    assert_eq!(plan.connect, None);
    assert_eq!(tray.stats().status, "Status: Not connected");
    assert_eq!(tray.stats().bitrate, "Bitrate: N/A");
}

#[test]
fn click_elsewhere_ends_the_sender_too() {
    let mut tray = two_receivers();
    let _ = tray.on_menu_event(&"7".to_string(), true);
    tray.on_connected();
    let plan = tray.on_menu_event(&"quit".to_string(), true);
    assert!(plan.kill);
    assert_eq!(plan.clicked, None);
    assert!(plan.uncheck.is_empty());
    assert_eq!(plan.connect, None);
}

#[test]
fn losing_the_receiver_that_plays_ends_the_sender() {
    let mut tray = two_receivers();
    let _ = tray.on_menu_event(&"7".to_string(), true);
    tray.on_connected();
    let plan = tray.on_lost(&"attic".to_string(), true, true);
    assert!(plan.kill);
    assert_eq!(plan.lost, Some(0));
    assert_eq!(tray.stats().status, "Status: Not connected");
    assert_eq!(tray.find_name(&"attic".to_string()), None);
    assert_eq!(tray.find_id(&"8".to_string()), Some(0));
}

#[test]
fn losing_another_receiver_does_not() {
    let mut tray = two_receivers();
    let _ = tray.on_menu_event(&"7".to_string(), true);
    tray.on_connected();
    let plan = tray.on_lost(&"cellar".to_string(), false, true);
    assert!(!plan.kill);
    assert_eq!(plan.lost, Some(1));
    assert_eq!(tray.stats().status, "Status: Active");
    let plan = tray.on_lost(&"garage".to_string(), true, true);
    assert!(!plan.kill);
    assert_eq!(plan.lost, None);
}

#[test]
fn checkbox_that_cannot_be_removed_stays_listed() {
    let mut tray = two_receivers();
    let _ = tray.on_menu_event(&"7".to_string(), true);
    tray.on_connected();
    let plan = tray.on_lost(&"attic".to_string(), true, false);
    assert!(plan.kill);
    assert_eq!(plan.lost, Some(0));
    assert_eq!(tray.stats().status, "Status: Not connected");
    assert_eq!(tray.find_name(&"attic".to_string()), Some(0));
}

#[test]
fn receiver_that_is_found_and_lost_leaves_no_trace() {
    let mut tray = two_receivers();
    found(&mut tray, "garage", "10.0.0.4:1", "9");
    assert_eq!(tray.find_id(&"9".to_string()), Some(2));
    let plan = tray.on_lost(&"garage".to_string(), false, true);
    assert_eq!(plan.lost, Some(2));
    assert_eq!(tray.find_id(&"9".to_string()), None);
    assert_eq!(tray.find_name(&"cellar".to_string()), Some(1));
}
