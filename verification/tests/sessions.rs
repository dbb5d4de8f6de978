use audio_stream::discover::DiscoveryResult;
use audio_stream::handshake::Handshake;
use audio_stream::message::AudioMessage;
use audio_stream::session::{
    answering_name, network_latency, Receiver, ReceiverAction, ReceiverEvent, Sender, SenderAction,
    SenderEvent, SEARCH_MILLISECONDS,
};
use audio_stream::wire::{ByteReader, ReadError};

fn to_address() -> Sender {
    Sender::new(Some("10.0.0.2:1".to_string()), Some("attic".to_string()), 44100, 2048)
}

fn to_name() -> Sender {
    Sender::new(None, Some("attic".to_string()), 44100, 2048)
}

fn playing(buffer_size: u32) -> Receiver {
    let mut receiver = Receiver::new();
    let handshake = Handshake { sample_rate: 44100, buffer_size };
    assert!(matches!(receiver.step(ReceiverEvent::Accepted), ReceiverAction::ReadHandshake));
    match receiver.step(ReceiverEvent::Greeted(Ok(handshake))) {
        ReceiverAction::Open(parameters) => assert_eq!(parameters, handshake),
        _ => panic!("the output device is opened"),
    }
    match receiver.step(ReceiverEvent::Opened) {
        ReceiverAction::Play(samples) => assert_eq!(samples, vec![0; buffer_size as usize]),
        _ => panic!("silence is played first"),
    }
    receiver
}

#[test]
fn sender_goes_to_its_address_first() {
    let mut sender = to_address();
    match sender.step(SenderEvent::Ready) {
        SenderAction::Connect(addr) => assert_eq!(addr, "10.0.0.2:1"),
        _ => panic!("it connects"),
    }
}

#[test]
fn sender_tries_its_address_again() {
    let mut sender = to_address();
    for _ in 0..3 {
        assert!(matches!(sender.step(SenderEvent::Ready), SenderAction::Connect(_)));
        assert!(matches!(sender.step(SenderEvent::ConnectFailed), SenderAction::Wait(5)));
    }
}

#[test]
fn sender_searches_for_a_name() {
    let mut sender = to_name();
    match sender.step(SenderEvent::Ready) {
        SenderAction::Search(name) => assert_eq!(name, "attic"),
        _ => panic!("it searches"),
    }
    assert!(matches!(sender.step(SenderEvent::Searched(None)), SenderAction::Wait(5)));
    assert!(matches!(sender.step(SenderEvent::Ready), SenderAction::Search(_)));
    let found = DiscoveryResult { name: "attic".to_string(), addr: "10.0.0.9:1".to_string() };
    match sender.step(SenderEvent::Searched(Some(found))) {
        SenderAction::Connect(addr) => assert_eq!(addr, "10.0.0.9:1"),
        _ => panic!("it connects to the receiver that it found"),
    }
    assert!(matches!(sender.step(SenderEvent::ConnectFailed), SenderAction::Abort));
    assert_eq!(SEARCH_MILLISECONDS, 2000);
}

#[test]
fn failed_search_ends_the_sender() {
    let mut sender = to_name();
    let _ = sender.step(SenderEvent::Ready);
    assert!(matches!(sender.step(SenderEvent::SearchFailed), SenderAction::Abort));
}

#[test]
fn sender_greets_and_streams_and_reconnects() {
    let mut sender = to_address();
    let _ = sender.step(SenderEvent::Ready);
    match sender.step(SenderEvent::Connected) {
        SenderAction::Greet(bytes) => assert_eq!(bytes, vec![0, 0, 0xac, 0x44, 0, 0, 8, 0]),
        _ => panic!("it greets"),
    }
    assert!(matches!(sender.step(SenderEvent::Greeted), SenderAction::Begin));
    assert!(matches!(sender.step(SenderEvent::Sent), SenderAction::Continue));
    assert!(matches!(sender.step(SenderEvent::SendFailed), SenderAction::Reconnect));
    assert!(matches!(sender.step(SenderEvent::Ready), SenderAction::Connect(_)));
    let _ = sender.step(SenderEvent::Connected);
    assert!(matches!(sender.step(SenderEvent::GreetFailed), SenderAction::Abort));
}

#[test]
fn sender_ends_without_samples() {
    let mut sender = to_address();
    let _ = sender.step(SenderEvent::Ready);
    let _ = sender.step(SenderEvent::Connected);
    let _ = sender.step(SenderEvent::Greeted);
    assert!(matches!(sender.step(SenderEvent::CaptureFailed), SenderAction::Abort));
}

#[test]
fn receiver_plays_what_was_recorded() {
    let samples = vec![1.5f32.to_bits(), 0, 0x8000_0000, f32::NAN.to_bits()];
    let mut bytes = Vec::new();
    AudioMessage::from_samples(&samples, 1).write(&mut bytes);
    let mut buffer = vec![9; 4];
    let (_, message) = AudioMessage::read(&mut buffer, &mut ByteReader::new(&bytes)).unwrap();
    let mut receiver = playing(4);
    match receiver.step(ReceiverEvent::Message(Ok(message))) {
        ReceiverAction::Play(played) => assert_eq!(played, samples),
        _ => panic!("the message is played"),
    }
}

#[test]
fn receiver_plays_every_buffer_in_order() {
    let buffers: Vec<Vec<u32>> = vec![vec![1, 2], vec![0, 0x8000_0000], vec![0, 3], vec![4, 0]];
    let mut bytes = Vec::new();
    for (time, samples) in buffers.iter().enumerate() {
        AudioMessage::from_samples(samples, time as u64).write(&mut bytes);
    }
    assert_eq!(bytes.len(), 4 * 17 + 3 * 8);
    let mut reader = ByteReader::new(&bytes);
    let mut buffer = vec![9, 9];
    let mut receiver = playing(2);
    let mut heard = Vec::new();
    for time in 0..4 {
        let (_, message) = AudioMessage::read(&mut buffer, &mut reader).unwrap();
        assert_eq!(message.timestamp, time);
        match receiver.step(ReceiverEvent::Message(Ok(message))) {
            ReceiverAction::Play(samples) => heard.push(samples),
            _ => panic!("the message is played"),
        }
    }
    assert_eq!(reader.remaining(), 0);
    assert_eq!(heard, vec![vec![1, 2], vec![0, 0], vec![0, 3], vec![4, 0]]);
}

#[test]
fn receiver_plays_silence_for_a_silent_message() {
    let samples = vec![0, 0x8000_0000, 0];
    let mut bytes = Vec::new();
    AudioMessage::from_samples(&samples, 1).write(&mut bytes);
    assert_eq!(bytes.len(), 17);
    let mut buffer = vec![9; 3];
    let (_, message) = AudioMessage::read(&mut buffer, &mut ByteReader::new(&bytes)).unwrap();
    let mut receiver = playing(3);
    match receiver.step(ReceiverEvent::Message(Ok(message))) {
        ReceiverAction::Play(played) => assert_eq!(played, vec![0, 0, 0]),
        _ => panic!("silence is played"),
    }
}

#[test]
fn receiver_listens_again_after_a_broken_connection() {
    let mut receiver = playing(2);
    match receiver.step(ReceiverEvent::Message(Err(ReadError::UnexpectedEof))) {
        ReceiverAction::PlayLast(played) => assert_eq!(played, vec![0, 0]),
        _ => panic!("silence is played last"),
    }
    assert!(matches!(receiver.step(ReceiverEvent::Accepted), ReceiverAction::ReadHandshake));
    let failed = ReceiverEvent::Greeted(Err(ReadError::UnexpectedEof));
    assert!(matches!(receiver.step(failed), ReceiverAction::Abort));
}

#[test]
fn other_failures_end_the_receiver() {
    assert!(matches!(
        Receiver::new().step(ReceiverEvent::AcceptFailed),
        ReceiverAction::Abort
    ));
    assert!(matches!(playing(1).step(ReceiverEvent::PlayFailed), ReceiverAction::Abort));
    let mut receiver = Receiver::new();
    let _ = receiver.step(ReceiverEvent::Accepted);
    let handshake = Handshake { sample_rate: 1, buffer_size: 1 };
    let _ = receiver.step(ReceiverEvent::Greeted(Ok(handshake)));
    assert!(matches!(receiver.step(ReceiverEvent::OpenFailed), ReceiverAction::Abort));
}

#[test]
fn receiver_needs_a_name_to_answer() {
    assert_eq!(answering_name(false, None), Ok(None));
    assert_eq!(answering_name(false, Some("attic".to_string())), Ok(None));
    assert_eq!(
        answering_name(true, Some("attic".to_string())),
        Ok(Some("attic".to_string()))
    );
    assert_eq!(
        answering_name(true, None),
        Err("Discovery name must be provided when discovery is enabled.".to_string())
    );
}

#[test]
fn latency_is_the_difference_of_the_clocks() {
    assert_eq!(network_latency(1500, 1000), 500);
    assert_eq!(network_latency(7, 7), 0);
    assert_eq!(network_latency(0, 1), u64::MAX);
}
