use deepfilter_audio::engine::{EngineError, EngineState, StreamSlot};

#[test]
fn fresh_engine_refuses_recording_without_model() {
    let engine = EngineState::new();
    assert_eq!(engine.check_start_recording(), Err(EngineError::ModelNotLoaded));
    assert_eq!(
        EngineError::ModelNotLoaded.message(),
        "DeepFilter model not loaded. Call init_engine first."
    );
}

#[test]
fn recording_cycle() {
    let mut engine = EngineState::new();
    engine.model_validated(true);
    assert_eq!(engine.check_start_recording(), Ok(()));
    engine.recording_started();
    assert!(engine.is_recording());
    assert_eq!(engine.check_start_recording(), Err(EngineError::AlreadyRecording));
    assert_eq!(engine.check_stop_recording(), Ok(()));
    engine.recording_stopped();
    assert!(!engine.is_recording());
    assert_eq!(engine.check_stop_recording(), Err(EngineError::NotRecording));
    assert_eq!(EngineError::NotRecording.message(), "Not recording");
}

#[test]
fn failed_validation_keeps_engine_unloaded() {
    let mut engine = EngineState::new();
    engine.model_validated(false);
    assert_eq!(engine.check_start_recording(), Err(EngineError::ModelNotLoaded));
    engine.model_validated(true);
    engine.model_validated(false);
    assert_eq!(engine.check_start_recording(), Ok(()));
}

#[test]
fn playback_cycle() {
    let mut engine = EngineState::new();
    assert_eq!(engine.stop_playback(), Err(EngineError::NotPlaying));
    assert_eq!(engine.check_start_playback(), Ok(()));
    engine.playback_started();
    assert!(engine.is_playing());
    assert_eq!(engine.check_start_playback(), Err(EngineError::AlreadyPlaying));
    assert_eq!(EngineError::AlreadyPlaying.message(), "Already playing");
    assert_eq!(engine.stop_playback(), Ok(()));
    assert!(!engine.is_playing());
    assert_eq!(EngineError::NotPlaying.message(), "Not playing");
}

#[test]
fn poll_playback_without_player_counts_as_finished() {
    let mut engine = EngineState::new();
    engine.playback_started();
    assert!(!engine.poll_playback(Some(false)));
    assert!(engine.is_playing());
    assert!(engine.poll_playback(None));
    assert!(!engine.is_playing());
    engine.playback_started();
    assert!(engine.poll_playback(Some(true)));
    assert!(!engine.is_playing());
}

#[test]
fn streams_switch_only_with_model() {
    let mut engine = EngineState::new();
    assert!(!engine.is_stream_enabled(StreamSlot::A));
    assert_eq!(
        engine.set_stream_enabled(StreamSlot::A, false),
        Err(EngineError::ModelNotLoaded)
    );
    engine.model_validated(true);
    assert!(engine.is_stream_enabled(StreamSlot::A));
    assert!(engine.is_stream_enabled(StreamSlot::B));
    assert_eq!(engine.set_stream_enabled(StreamSlot::A, false), Ok(()));
    assert!(!engine.is_stream_enabled(StreamSlot::A));
    assert!(engine.is_stream_enabled(StreamSlot::B));
}

#[test]
fn status_reports_state() {
    let mut engine = EngineState::new();
    engine.model_validated(true);
    engine.recording_started();
    engine.set_stream_enabled(StreamSlot::B, false).unwrap();
    let st = engine.status(Some(1234));
    assert!(st.is_recording);
    assert!(!st.is_playing);
    assert_eq!(st.duration_ms, 1234);
    assert!(st.stream_a_enabled);
    assert!(!st.stream_b_enabled);
    assert!(st.error.is_none());
    assert_eq!(engine.status(None).duration_ms, 0);
}

#[test]
fn reloading_a_model_switches_both_streams_on() {
    let mut engine = EngineState::new();
    engine.model_validated(true);
    engine.set_stream_enabled(StreamSlot::A, false).unwrap();
    engine.model_validated(false);
    assert!(!engine.is_stream_enabled(StreamSlot::A));
    engine.model_validated(true);
    assert!(engine.is_stream_enabled(StreamSlot::A));
    assert!(engine.is_stream_enabled(StreamSlot::B));
}
