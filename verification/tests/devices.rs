use audio_stream::device::{find_device, AudioError, SampleFormat};
use audio_stream::input::AudioInput;
use audio_stream::output::AudioOutput;

fn names() -> Vec<Option<String>> {
    vec![Some("pulse".to_string()), None, Some("jack".to_string()), Some("pulse".to_string())]
}

fn input() -> AudioInput {
    AudioInput::new(&names(), &"jack".to_string(), 3, 4).unwrap().1
}

fn output() -> AudioOutput {
    AudioOutput::new(&names(), &"jack".to_string(), 3, 4).unwrap().1
}

#[test]
fn first_device_of_the_name_is_found() {
    assert!(matches!(find_device(&names(), &"pulse".to_string()), Ok(0)));
    assert!(matches!(find_device(&names(), &"jack".to_string()), Ok(2)));
    assert!(matches!(find_device(&names(), &String::new()), Ok(1)));
}

#[test]
fn missing_device_is_an_error() {
    let error = AudioInput::new(&names(), &"oss".to_string(), 44100, 2048).err().unwrap();
    assert!(matches!(error, AudioError::DeviceNotFound(_)));
    assert_eq!(error.message(), "Device oss not found");
    let error = AudioOutput::new(&Vec::new(), &"oss".to_string(), 44100, 2048).err().unwrap();
    assert_eq!(error.message(), "Device oss not found");
}

#[test]
fn devices_know_their_parameters() {
    let (index, input) = AudioInput::new(&names(), &"jack".to_string(), 44100, 2048).unwrap();
    assert_eq!(index, 2);
    assert_eq!(input.sample_rate(), 44100);
    assert_eq!(input.buffer_size(), 2048);
    let (index, output) = AudioOutput::new(&names(), &"pulse".to_string(), 44100, 512).unwrap();
    assert_eq!(index, 0);
    assert_eq!(output.buffer_size(), 512);
}

#[test]
fn recorded_samples_come_out_in_order() {
    let mut input = input();
    assert!(matches!(input.capture(SampleFormat::F32, &[1, 2]), Ok(2)));
    assert!(matches!(input.capture(SampleFormat::I16, &[3, 4]), Ok(2)));
    let mut buffer = vec![0; 3];
    assert!(matches!(input.pop_slice(&mut buffer, 0), Ok(3)));
    assert_eq!(buffer, vec![1, 2, 3]);
    let mut buffer = vec![9; 3];
    assert!(matches!(input.pop_slice(&mut buffer, 1), Ok(2)));
    assert_eq!(buffer, vec![9, 4, 9]);
}

#[test]
fn samples_without_room_are_dropped() {
    let mut input = input();
    assert!(matches!(input.capture(SampleFormat::F32, &[1, 2, 3, 4, 5, 6, 7, 8]), Ok(6)));
    assert!(matches!(input.capture(SampleFormat::F32, &[9]), Ok(0)));
    let mut buffer = vec![0; 2];
    assert!(matches!(input.pop_slice(&mut buffer, 0), Ok(2)));
    assert!(matches!(input.capture(SampleFormat::F32, &[10, 11, 12]), Ok(2)));
    let mut buffer = vec![0; 7];
    assert!(matches!(input.pop_slice(&mut buffer, 0), Ok(6)));
    assert_eq!(buffer, vec![3, 4, 5, 6, 10, 11, 0]);
}

#[test]
fn unsupported_input_format_is_ignored() {
    let mut input = input();
    assert!(matches!(
        input.capture(SampleFormat::Other, &[1, 2]),
        Err(AudioError::UnsupportedFormat)
    ));
    let mut buffer = vec![0; 1];
    assert!(matches!(input.pop_slice(&mut buffer, 0), Ok(0)));
}

#[test]
fn input_that_is_closed_is_drained_before_it_fails() {
    let mut input = input();
    let _ = input.capture(SampleFormat::F32, &[1, 2, 3]);
    input.close();
    let mut buffer = vec![0; 2];
    assert!(matches!(input.pop_slice(&mut buffer, 0), Ok(2)));
    assert!(matches!(input.pop_slice(&mut buffer, 0), Err(AudioError::InputDropped)));
    assert_eq!(buffer, vec![3, 2]);
    assert_eq!(AudioError::InputDropped.message(), "Input ring buffer producer dropped.");
}

#[test]
fn flush_drops_what_was_recorded() {
    let mut input = input();
    let _ = input.capture(SampleFormat::F32, &[1, 2, 3]);
    input.flush();
    let _ = input.capture(SampleFormat::F32, &[4]);
    let mut buffer = vec![0; 2];
    assert!(matches!(input.pop_slice(&mut buffer, 0), Ok(1)));
    assert_eq!(buffer, vec![4, 0]);
}

#[test]
fn queued_samples_are_played_in_order() {
    let mut output = output();
    let samples = [1, 2, 3, 4, 5, 6, 7, 8];
    assert!(matches!(output.push_slice(&samples, 0), Ok(6)));
    let mut data = vec![0; 4];
    assert!(matches!(output.play(SampleFormat::F32, &mut data), Ok(4)));
    assert_eq!(data, vec![1, 2, 3, 4]);
    assert!(matches!(output.push_slice(&samples, 6), Ok(8)));
    let mut data = vec![9; 5];
    assert!(matches!(output.play(SampleFormat::F32, &mut data), Ok(4)));
    assert_eq!(data, vec![5, 6, 7, 8, 9]);
}

#[test]
fn unsupported_output_format_is_ignored() {
    let mut output = output();
    let _ = output.push_slice(&[1], 0);
    let mut data = vec![9];
    for format in [SampleFormat::I16, SampleFormat::Other] {
        assert!(matches!(
            output.play(format, &mut data),
            Err(AudioError::UnsupportedFormat)
        ));
    }
    assert_eq!(data, vec![9]);
    assert!(matches!(output.play(SampleFormat::F32, &mut data), Ok(1)));
    assert_eq!(data, vec![1]);
    assert_eq!(AudioError::UnsupportedFormat.message(), "Unsupported sample format");
}

#[test]
fn output_that_is_closed_takes_nothing() {
    let mut output = output();
    output.close();
    assert!(matches!(output.push_slice(&[1], 0), Err(AudioError::OutputDropped)));
    let mut data = vec![9];
    assert!(matches!(output.play(SampleFormat::F32, &mut data), Ok(0)));
    assert_eq!(data, vec![9]);
    assert_eq!(AudioError::OutputDropped.message(), "Output ring buffer producer dropped.");
}
