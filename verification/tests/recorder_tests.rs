use deepfilter_audio::recorder::AudioRecorder;

#[test]
fn captures_only_while_recording() {
    let mut rec: AudioRecorder<i16> = AudioRecorder::new("out.wav".to_string());
    assert!(!rec.is_recording());
    assert!(!rec.on_input(&[1, 2, 3]));
    rec.clear_samples();
    rec.start();
    assert!(rec.is_recording());
    assert!(rec.on_input(&[1, 2, 3]));
    assert!(rec.on_input(&[4]));
    let (samples, path) = rec.stop();
    assert_eq!(samples, vec![1, 2, 3, 4]);
    assert_eq!(path, "out.wav");
    assert!(!rec.is_recording());
    assert!(!rec.on_input(&[5]));
}

#[test]
fn duration_follows_the_sample_count() {
    let mut rec: AudioRecorder<u8> = AudioRecorder::new(String::new());
    rec.start();
    assert_eq!(rec.duration_ms(), 0);
    rec.on_input(&vec![0u8; 48_000]);
    assert_eq!(rec.duration_ms(), 1000);
    rec.on_input(&vec![0u8; 47]);
    assert_eq!(rec.duration_ms(), 1000);
    rec.on_input(&[0u8]);
    assert_eq!(rec.duration_ms(), 1001);
}

#[test]
fn a_new_capture_starts_empty() {
    let mut rec: AudioRecorder<i16> = AudioRecorder::new("a.wav".to_string());
    rec.start();
    rec.on_input(&[1, 2]);
    assert_eq!(rec.stop().0, vec![1, 2]);
    rec.start();
    rec.on_input(&[3]);
    assert_eq!(rec.stop().0, vec![3]);
    assert_eq!(rec.stop().0, vec![3]);
}
