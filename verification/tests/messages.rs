use audio_stream::handshake::Handshake;
use audio_stream::message::{payload_samples, AudioMessage, HEADER_LEN};
use audio_stream::wire::{put_be, put_le, ByteReader, ReadError};

fn bits(samples: &[f32]) -> Vec<u32> {
    samples.iter().map(|v| v.to_bits()).collect()
}

#[test]
fn numbers_have_their_bytes_in_order() {
    let mut buffer = vec![9];
    put_be(&mut buffer, 0x0102_0304, 4);
    put_le(&mut buffer, 0x0102_0304, 4);
    assert_eq!(buffer, vec![9, 1, 2, 3, 4, 4, 3, 2, 1]);
    let mut reader = ByteReader::new(&buffer[1..]);
    assert_eq!(reader.read_be(4), Ok(0x0102_0304));
    assert_eq!(reader.read_le(4), Ok(0x0102_0304));
    assert_eq!(reader.remaining(), 0);
}

#[test]
fn large_numbers_are_read() {
    let bytes = [0xff; 8];
    assert_eq!(ByteReader::new(&bytes).read_be(8), Ok(u64::MAX));
    assert_eq!(ByteReader::new(&bytes).read_le(8), Ok(u64::MAX));
}

#[test]
fn reading_past_the_end_takes_what_there_is() {
    let bytes = [1, 2, 3];
    let mut reader = ByteReader::new(&bytes);
    assert_eq!(reader.read_be(4), Err(ReadError::UnexpectedEof));
    assert_eq!(reader.remaining(), 0);
    assert_eq!(reader.read_le(1), Err(ReadError::UnexpectedEof));
}

#[test]
fn handshake_is_two_big_endian_numbers() {
    let mut buffer = Vec::new();
    let handshake = Handshake { sample_rate: 44100, buffer_size: 2048 };
    assert_eq!(handshake.write(&mut buffer), 8);
    assert_eq!(buffer, vec![0, 0, 0xac, 0x44, 0, 0, 8, 0]);
}

#[test]
fn handshake_comes_back() {
    let handshake = Handshake { sample_rate: u32::MAX, buffer_size: 1 };
    let mut buffer = Vec::new();
    handshake.write(&mut buffer);
    buffer.push(7);
    let mut reader = ByteReader::new(&buffer);
    assert_eq!(Handshake::read(&mut reader), Ok(handshake));
    assert_eq!(reader.read_be(1), Ok(7));
}

#[test]
fn short_handshake_is_refused() {
    let bytes = [0; 7];
    let mut reader = ByteReader::new(&bytes);
    assert_eq!(Handshake::read(&mut reader), Err(ReadError::UnexpectedEof));
    assert_eq!(reader.remaining(), 0);
}

#[test]
fn message_bytes_are_exact() {
    let samples = bits(&[1.0, -0.5]);
    let message = AudioMessage::from_samples(&samples, 0x0102);
    assert!(!message.fully_silent);
    let mut buffer = Vec::new();
    assert_eq!(message.write(&mut buffer), 25);
    let expected: Vec<u8> = vec![
        0, 0, 0, 0, 0, 0, 1, 2, 0, 0, 0, 0, 0, 0, 0, 0, 2, 0, 0, 0x80, 0x3f, 0, 0, 0, 0xbf,
    ];
    assert_eq!(buffer, expected);
}

#[test]
fn silent_message_has_no_samples() {
    let samples = bits(&[0.0, -0.0, 0.0]);
    let message = AudioMessage::from_samples(&samples, 5);
    assert!(message.fully_silent);
    assert!(message.data.is_empty());
    let mut buffer = Vec::new();
    assert_eq!(message.write(&mut buffer), 17);
    assert_eq!(buffer, vec![0, 0, 0, 0, 0, 0, 0, 5, 1, 0, 0, 0, 0, 0, 0, 0, 0]);
}

#[test]
fn nothing_is_silent_and_small_numbers_are_not() {
    assert!(AudioMessage::from_samples(&[], 0).fully_silent);
    let tiny = bits(&[0.0, f32::from_bits(1)]);
    assert!(!AudioMessage::from_samples(&tiny, 0).fully_silent);
    let nan = bits(&[f32::NAN]);
    assert!(!AudioMessage::from_samples(&nan, 0).fully_silent);
}

#[test]
fn message_comes_back() {
    let samples = bits(&[0.25, f32::NAN, f32::INFINITY, -0.0]);
    let message = AudioMessage::from_samples(&samples, u64::MAX);
    let mut bytes = Vec::new();
    let written = message.write(&mut bytes);
    bytes.push(42);
    let mut buffer = vec![7; 4];
    let mut reader = ByteReader::new(&bytes);
    let (read, message) = AudioMessage::read(&mut buffer, &mut reader).unwrap();
    assert_eq!(read, written);
    assert_eq!(message.timestamp, u64::MAX);
    assert!(!message.fully_silent);
    assert_eq!(message.data, &samples[..]);
    assert_eq!(reader.read_be(1), Ok(42));
}

#[test]
fn data_is_the_whole_buffer() {
    let samples = bits(&[1.0]);
    let mut bytes = Vec::new();
    AudioMessage::from_samples(&samples, 1).write(&mut bytes);
    let mut buffer = vec![7, 8, 9];
    let mut reader = ByteReader::new(&bytes);
    let (read, message) = AudioMessage::read(&mut buffer, &mut reader).unwrap();
    assert_eq!(read, 21);
    assert_eq!(message.data, &[1.0f32.to_bits(), 8, 9]);
}

#[test]
fn only_one_means_silent() {
    let mut bytes = vec![0; HEADER_LEN];
    bytes[8] = 2;
    let mut buffer = vec![];
    let (_, message) = AudioMessage::read(&mut buffer, &mut ByteReader::new(&bytes)).unwrap();
    assert!(!message.fully_silent);
    bytes[8] = 1;
    let mut buffer = vec![];
    let (_, message) = AudioMessage::read(&mut buffer, &mut ByteReader::new(&bytes)).unwrap();
    assert!(message.fully_silent);
}

#[test]
fn message_that_is_too_large_is_refused() {
    let samples = bits(&[1.0, 2.0]);
    let mut bytes = Vec::new();
    AudioMessage::from_samples(&samples, 1).write(&mut bytes);
    let mut buffer = vec![7];
    let mut reader = ByteReader::new(&bytes);
    assert!(matches!(
        AudioMessage::read(&mut buffer, &mut reader),
        Err(ReadError::BufferTooSmall)
    ));
    assert_eq!(reader.remaining(), 8);
    assert_eq!(buffer, vec![7]);
}

#[test]
fn message_that_is_cut_off_is_refused() {
    let samples = bits(&[1.0, 2.0]);
    let mut bytes = Vec::new();
    AudioMessage::from_samples(&samples, 1).write(&mut bytes);
    let mut buffer = vec![7, 8];
    let mut reader = ByteReader::new(&bytes[..23]);
    assert!(matches!(
        AudioMessage::read(&mut buffer, &mut reader),
        Err(ReadError::UnexpectedEof)
    ));
    assert_eq!(reader.remaining(), 0);
    assert_eq!(buffer, vec![1.0f32.to_bits(), 8]);
    let mut reader = ByteReader::new(&bytes[..16]);
    assert!(matches!(
        AudioMessage::read(&mut buffer, &mut reader),
        Err(ReadError::UnexpectedEof)
    ));
}

#[test]
fn header_tells_the_number_of_samples() {
    let samples = bits(&[1.0, 2.0, 3.0]);
    let mut bytes = Vec::new();
    AudioMessage::from_samples(&samples, 1).write(&mut bytes);
    assert_eq!(payload_samples(&bytes[..HEADER_LEN], 3), Ok(3));
    assert_eq!(payload_samples(&bytes[..HEADER_LEN], 2), Err(ReadError::BufferTooSmall));
    assert_eq!(payload_samples(&bytes[..16], 3), Err(ReadError::UnexpectedEof));
}
