use audio_stream::discover::{
    Discovery, DiscoveryError, DiscoveryMessage, DiscoveryResult, ListEvent, ListStep, Listening,
    Received, SearchEvent, SearchStep, REQUEST_MILLISECONDS,
};

fn device(name: &str, addr: &str) -> DiscoveryResult {
    DiscoveryResult { name: name.to_string(), addr: addr.to_string() }
}

fn answer(name: &str) -> Vec<u8> {
    DiscoveryMessage { name: name.to_string() }.to_buffer().unwrap()
}

#[test]
fn answer_is_length_then_name() {
    assert_eq!(answer("kitchen"), b"\x07kitchen".to_vec());
    assert_eq!(answer(""), vec![0]);
    assert_eq!(answer("\u{e9}"), vec![2, 0xc3, 0xa9]);
}

#[test]
fn name_comes_back() {
    for name in ["", "kitchen", "K\u{fc}che \u{1f50a}", &"x".repeat(255)] {
        let message = DiscoveryMessage::from_buffer(&answer(name)).unwrap();
        assert_eq!(message.name, name);
    }
}

#[test]
fn bytes_behind_the_name_are_ignored() {
    let message = DiscoveryMessage::from_buffer(b"\x03abcdef").unwrap();
    assert_eq!(message.name, "abc");
}

#[test]
fn long_name_loses_its_length() {
    let buffer = answer(&"ab".repeat(150));
    assert_eq!(buffer.len(), 301);
    assert_eq!(buffer[0], 44);
    let message = DiscoveryMessage::from_buffer(&buffer).unwrap();
    assert_eq!(message.name, "ab".repeat(22));
}

#[test]
fn name_that_is_not_utf8_is_refused() {
    let message = DiscoveryMessage::from_buffer(&[2, 0xff, 0x61]);
    assert!(matches!(message, Err(DiscoveryError::InvalidName)));
}

#[test]
fn only_requests_are_answered() {
    let name = "attic".to_string();
    assert_eq!(Discovery::start(&name, b"audio-stream discovery"), Some(b"\x05attic".to_vec()));
    assert_eq!(Discovery::start(&name, b"audio-stream discoverx"), None);
    assert_eq!(Discovery::start(&name, b"audio-stream discovery "), None);
    assert_eq!(Discovery::start(&name, b""), None);
}

#[test]
fn answers_are_not_requests() {
    let name = "attic".to_string();
    for other in ["", "audio-stream discovery", "udio-stream discovery", "a"] {
        assert_eq!(Discovery::start(&name, &answer(other)), None);
    }
}

#[test]
fn request_is_broadcast() {
    let (datagram, addr) = Discovery::send_discovery(9080);
    assert_eq!(datagram, b"audio-stream discovery".to_vec());
    assert_eq!(addr, "255.255.255.255:9080");
    assert_eq!(Discovery::send_discovery(0).1, "255.255.255.255:0");
    assert_eq!(Discovery::send_discovery(65535).1, "255.255.255.255:65535");
}

fn datagram<'a>(bytes: &'a [u8], addr: &str) -> Received<'a> {
    Received::Datagram(bytes, addr.to_string())
}

#[test]
fn answer_tells_of_a_receiver() {
    let mut listening = Listening::new();
    let received = datagram(b"\x05attic", "10.0.0.7:9080");
    let found = Discovery::recv_discovery(&mut listening, received).unwrap().unwrap();
    assert_eq!(found.name, "attic");
    assert_eq!(found.addr, "10.0.0.7:9080");
    assert!(!listening.ended());
}

#[test]
fn answers_end_with_the_first_failure() {
    let mut listening = Listening::new();
    let first = datagram(b"\x02pi", "10.0.0.5:9080");
    let found = Discovery::recv_discovery(&mut listening, first).unwrap().unwrap();
    assert_eq!(found.name, "pi");
    assert_eq!(found.addr, "10.0.0.5:9080");
    let second = datagram(&[1, 0xff], "10.0.0.6:9080");
    assert!(matches!(
        Discovery::recv_discovery(&mut listening, second),
        Some(Err(DiscoveryError::InvalidName))
    ));
    assert!(listening.ended());
    let third = datagram(b"\x01a", "10.0.0.7:9080");
    assert!(Discovery::recv_discovery(&mut listening, third).is_none());
    assert!(listening.ended());
}

#[test]
fn failed_socket_ends_the_answers() {
    let mut listening = Listening::new();
    match Discovery::recv_discovery(&mut listening, Received::Failed("gone".to_string())) {
        Some(Err(DiscoveryError::Socket(reason))) => assert_eq!(reason, "gone"),
        _ => panic!("the failure is delivered"),
    }
    let again = Received::Failed("gone".to_string());
    assert!(Discovery::recv_discovery(&mut listening, again).is_none());
}

#[test]
fn search_ends_with_the_first_of_the_name() {
    let name = "attic".to_string();
    let events = vec![
        SearchEvent::Device(Ok(device("cellar", "10.0.0.1:1"))),
        SearchEvent::Device(Ok(device("attic", "10.0.0.2:1"))),
        SearchEvent::Device(Ok(device("attic", "10.0.0.3:1"))),
    ];
    let mut found = None;
    for event in events {
        if let SearchStep::Done(result) = Discovery::search(&name, event) {
            found = result.unwrap();
            break;
        }
    }
    let found = found.unwrap();
    assert_eq!(found.name, "attic");
    assert_eq!(found.addr, "10.0.0.2:1");
}

#[test]
fn search_ends_without_a_receiver() {
    let name = "attic".to_string();
    let late = Discovery::search(&name, SearchEvent::TimedOut);
    assert!(matches!(late, SearchStep::Done(Ok(None))));
    let closed = Discovery::search(&name, SearchEvent::Closed);
    assert!(matches!(closed, SearchStep::Done(Err(DiscoveryError::Closed))));
    let failed = SearchEvent::Device(Err(DiscoveryError::Socket("gone".to_string())));
    match Discovery::search(&name, failed) {
        SearchStep::Done(Err(DiscoveryError::Socket(reason))) => assert_eq!(reason, "gone"),
        _ => panic!("the failure ends the search"),
    }
    let other = Discovery::search(&name, SearchEvent::Device(Ok(device("cellar", "a"))));
    assert!(matches!(other, SearchStep::Wait));
}

#[test]
fn listing_announces_unknown_receivers() {
    let found = ListEvent::Device(Ok(device("attic", "10.0.0.2:1")));
    match Discovery::print_all(found, false, false) {
        ListStep::Announce(device, line) => {
            assert_eq!(device.name, "attic");
            assert_eq!(line, "  \"attic\" at 10.0.0.2:1 discovered");
        }
        _ => panic!("an unknown receiver is announced"),
    }
    let known = ListEvent::Device(Ok(device("attic", "10.0.0.2:1")));
    assert!(matches!(Discovery::print_all(known, true, false), ListStep::Wait));
}

#[test]
fn listing_ends_without_a_failure_of_its_own() {
    for event in [
        ListEvent::Device(Err(DiscoveryError::InvalidName)),
        ListEvent::Closed,
        ListEvent::RequestFailed("gone".to_string()),
    ] {
        assert!(matches!(Discovery::print_all(event, false, true), ListStep::Finish(Ok(()))));
    }
    assert_eq!(REQUEST_MILLISECONDS, 100);
}

#[test]
fn listing_without_a_socket_fails() {
    let event = ListEvent::OpenFailed("no socket".to_string());
    match Discovery::print_all(event, false, true) {
        ListStep::Finish(Err(DiscoveryError::Socket(reason))) => assert_eq!(reason, "no socket"),
        _ => panic!("the listing fails"),
    }
}

#[test]
fn lost_follows_discovered_with_the_same_address() {
    let mut known: Vec<DiscoveryResult> = Vec::new();
    let mut lines = Vec::new();
    let heard = [device("attic", "a:1"), device("attic", "a:2"), device("cellar", "b:1")];
    for answer in heard {
        let is_known = known.iter().any(|device| device.name == answer.name);
        let event = ListEvent::Device(Ok(answer));
        if let ListStep::Announce(device, line) = Discovery::print_all(event, is_known, false) {
            known.push(device);
            lines.push(line);
        }
    }
    lines.push(Discovery::lost_line(&known.remove(0), false));
    assert_eq!(
        lines,
        [
            "  \"attic\" at a:1 discovered",
            "  \"cellar\" at b:1 discovered",
            "  \"attic\" at a:1 lost"
        ]
    );
}

#[test]
fn receivers_are_announced_again_after_the_timeout() {
    let timeout = 1000;
    let mut last_asked: Option<u64> = None;
    let mut announced = Vec::new();
    for time in [0, 600, 1500, 2500, 2501, 9000] {
        let known = last_asked.is_some_and(|last| time < last + timeout);
        let event = ListEvent::Device(Ok(device("attic", "a:1")));
        if let ListStep::Announce(..) = Discovery::print_all(event, known, true) {
            announced.push(time);
        }
        last_asked = Some(time);
    }
    assert_eq!(announced, [0, 2500, 9000]);
}

#[test]
fn lines_for_machines_are_json() {
    let found = ListEvent::Device(Ok(device("at\"tic\n\u{1}\\", "10.0.0.2:1")));
    match Discovery::print_all(found, false, true) {
        ListStep::Announce(_, line) => assert_eq!(
            line,
            "{\"addr\":\"10.0.0.2:1\",\"event\":\"discovered\",\"name\":\"at\\\"tic\\n\\u0001\\\\\"}"
        ),
        _ => panic!("an unknown receiver is announced"),
    }
    let line = Discovery::lost_line(&device("a\u{8}\u{c}\r\t\u{1f}\u{7f}\u{e9}/", "b"), true);
    assert_eq!(
        line,
        "{\"addr\":\"b\",\"event\":\"lost\",\"name\":\"a\\b\\f\\r\\t\\u001f\u{7f}\u{e9}/\"}"
    );
    assert!(!line.contains('\n'));
}

#[test]
fn lines_for_machines_are_read_back_as_json() {
    let name = "a\"b\\c\n\u{2028}\u{0}";
    let line = Discovery::lost_line(&device(name, "10.0.0.2:1"), true);
    let value: serde_json::Value = serde_json::from_str(&line).unwrap();
    assert_eq!(value["event"], "lost");
    assert_eq!(value["name"], name);
    assert_eq!(value["addr"], "10.0.0.2:1");
}

#[test]
fn lost_receivers_have_a_line() {
    let line = Discovery::lost_line(&device("attic", "10.0.0.2:1"), false);
    assert_eq!(line, "  \"attic\" at 10.0.0.2:1 lost");
}

#[test]
fn listing_has_a_heading_for_people() {
    assert_eq!(Discovery::list_heading(false).unwrap(), "Discovered audio receivers:");
    assert_eq!(Discovery::list_heading(true), None);
}
