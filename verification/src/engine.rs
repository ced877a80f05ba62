//! Control state of the audio engine: whether a model has been validated,
//! whether a recording or a playback is running, and which of the two
//! filter streams are enabled. Every request from the user interface is
//! first decided here; the audio devices, files and the filter network are
//! driven outside, and their outcome is reported back.
use vstd::prelude::*;

verus! {

/// Status reported to the user interface.
pub struct RecordingStatus {
    pub is_recording: bool,
    pub is_playing: bool,
    pub duration_ms: u64,
    pub stream_a_enabled: bool,
    pub stream_b_enabled: bool,
    pub error: Option<String>,
}

/// Why the engine refused a request.
#[derive(PartialEq, Eq, Structural, Clone, Copy, Debug)]
pub enum EngineError {
    /// A recording is already running.
    AlreadyRecording,
    /// No model has been validated yet.
    ModelNotLoaded,
    /// No recording is running.
    NotRecording,
    /// A playback is already running.
    AlreadyPlaying,
    /// No playback is running.
    NotPlaying,
}

/// One of the two filter streams.
#[derive(PartialEq, Eq, Structural, Clone, Copy, Debug)]
pub enum StreamSlot {
    A,
    B,
}

/// Abstract state of the engine.
pub struct EngineView {
    pub model_loaded: bool,
    pub is_recording: bool,
    pub is_playing: bool,
    pub player_finished: bool,
    pub stream_a_enabled: bool,
    pub stream_b_enabled: bool,
}

/// The engine's control state.
pub struct EngineState {
    model_loaded: bool,
    is_recording: bool,
    is_playing: bool,
    player_finished: bool,
    stream_a_enabled: bool,
    stream_b_enabled: bool,
}

impl View for EngineState {
    type V = EngineView;

    closed spec fn view(&self) -> EngineView {
        EngineView {
            model_loaded: self.model_loaded,
            is_recording: self.is_recording,
            is_playing: self.is_playing,
            player_finished: self.player_finished,
            stream_a_enabled: self.stream_a_enabled,
            stream_b_enabled: self.stream_b_enabled,
        }
    }
}

/// The engine's invariant: a recording only runs once a model has been
/// validated, and a running playback has not finished.
pub open spec fn engine_wf(s: EngineView) -> bool {
    &&& s.is_recording ==> s.model_loaded
    &&& s.is_playing ==> !s.player_finished
}

/// The state in which the engine starts.
pub open spec fn engine_initial() -> EngineView {
    EngineView {
        model_loaded: false,
        is_recording: false,
        is_playing: false,
        player_finished: true,
        stream_a_enabled: true,
        stream_b_enabled: true,
    }
}

/// State after a model validation that succeeded (`valid`) or failed. A
/// successful load creates two fresh stream processors, both switched on;
/// a failed one leaves the state as it was.
pub open spec fn after_model_validation(s: EngineView, valid: bool) -> EngineView {
    if valid {
        EngineView { model_loaded: true, stream_a_enabled: true, stream_b_enabled: true, ..s }
    } else {
        s
    }
}

/// Whether a recording may start.
pub open spec fn start_recording_check(s: EngineView) -> Result<(), EngineError> {
    if s.is_recording {
        Err(EngineError::AlreadyRecording)
    } else if !s.model_loaded {
        Err(EngineError::ModelNotLoaded)
    } else {
        Ok(())
    }
}

/// State once the input device is capturing.
pub open spec fn after_recording_started(s: EngineView) -> EngineView {
    EngineView { is_recording: true, ..s }
}

/// Whether a recording may be stopped.
pub open spec fn stop_recording_check(s: EngineView) -> Result<(), EngineError> {
    if !s.is_recording {
        Err(EngineError::NotRecording)
    } else {
        Ok(())
    }
}

/// State once the recorder has been taken off the input device.
pub open spec fn after_recording_stopped(s: EngineView) -> EngineView {
    EngineView { is_recording: false, ..s }
}

/// Whether a playback may start.
pub open spec fn start_playback_check(s: EngineView) -> Result<(), EngineError> {
    if s.is_playing {
        Err(EngineError::AlreadyPlaying)
    } else {
        Ok(())
    }
}

/// State once the output device is playing.
pub open spec fn after_playback_started(s: EngineView) -> EngineView {
    EngineView { is_playing: true, player_finished: false, ..s }
}

/// A stop request: refused when nothing plays; otherwise the engine is no
/// longer playing, whatever stopping the device reports.
pub open spec fn stop_playback_step(s: EngineView) -> (Result<(), EngineError>, EngineView) {
    if !s.is_playing {
        (Err(EngineError::NotPlaying), s)
    } else {
        (Ok(()), EngineView { is_playing: false, ..s })
    }
}

/// A poll of the player: `player` is whether the current player reports
/// that it has finished, or `None` when there is no player. A missing
/// player counts as finished; once finished, the engine is no longer playing.
pub open spec fn poll_playback_step(s: EngineView, player: Option<bool>) -> (bool, EngineView) {
    let finished = match player {
        Some(f) => f,
        None => true,
    };
    if finished {
        (true, EngineView { is_playing: false, player_finished: true, ..s })
    } else {
        (false, s)
    }
}

/// Whether a stream may be switched: only once a model has been validated
/// (before that, there are no stream processors).
pub open spec fn set_stream_step(s: EngineView, slot: StreamSlot, enabled: bool) -> (Result<(), EngineError>, EngineView) {
    if !s.model_loaded {
        (Err(EngineError::ModelNotLoaded), s)
    } else {
        match slot {
            StreamSlot::A => (Ok(()), EngineView { stream_a_enabled: enabled, ..s }),
            StreamSlot::B => (Ok(()), EngineView { stream_b_enabled: enabled, ..s }),
        }
    }
}

/// Whether a stream filters: it must exist (a model has been validated)
/// and be switched on.
pub open spec fn stream_enabled(s: EngineView, slot: StreamSlot) -> bool {
    s.model_loaded && match slot {
        StreamSlot::A => s.stream_a_enabled,
        StreamSlot::B => s.stream_b_enabled,
    }
}

impl EngineState {
    /// A fresh engine: no model, nothing running, both streams switched on.
    pub fn new() -> (e: Self)
        ensures
            e@ == engine_initial(),
    {
        EngineState {
            model_loaded: false,
            is_recording: false,
            is_playing: false,
            player_finished: true,
            stream_a_enabled: true,
            stream_b_enabled: true,
        }
    }

    /// Records the outcome of validating a model: a valid model marks the
    /// engine as loaded, with both (fresh) streams switched on; an invalid
    /// one leaves the state as it was.
    pub fn model_validated(&mut self, valid: bool)
        ensures
            final(self)@ == after_model_validation(old(self)@, valid),
    {
        if valid {
            self.model_loaded = true;
            self.stream_a_enabled = true;
            self.stream_b_enabled = true;
        }
    }

    /// Decides a request to start recording.
    pub fn check_start_recording(&self) -> (r: Result<(), EngineError>)
        ensures
            r == start_recording_check(self@),
    {
        if self.is_recording {
            Err(EngineError::AlreadyRecording)
        } else if !self.model_loaded {
            Err(EngineError::ModelNotLoaded)
        } else {
            Ok(())
        }
    }

    /// Notes that the input device is capturing.
    pub fn recording_started(&mut self)
        ensures
            final(self)@ == after_recording_started(old(self)@),
    {
        self.is_recording = true;
    }

    /// Decides a request to stop recording.
    pub fn check_stop_recording(&self) -> (r: Result<(), EngineError>)
        ensures
            r == stop_recording_check(self@),
    {
        if !self.is_recording {
            Err(EngineError::NotRecording)
        } else {
            Ok(())
        }
    }

    /// Notes that the recorder has been taken off the input device.
    pub fn recording_stopped(&mut self)
        ensures
            final(self)@ == after_recording_stopped(old(self)@),
    {
        self.is_recording = false;
    }

    /// Decides a request to start playback.
    pub fn check_start_playback(&self) -> (r: Result<(), EngineError>)
        ensures
            r == start_playback_check(self@),
    {
        if self.is_playing {
            Err(EngineError::AlreadyPlaying)
        } else {
            Ok(())
        }
    }

    /// Notes that the output device is playing.
    pub fn playback_started(&mut self)
        ensures
            final(self)@ == after_playback_started(old(self)@),
    {
        self.is_playing = true;
        self.player_finished = false;
    }

    /// Handles a request to stop playback.
    pub fn stop_playback(&mut self) -> (r: Result<(), EngineError>)
        ensures
            (r, final(self)@) == stop_playback_step(old(self)@),
    {
        if !self.is_playing {
            return Err(EngineError::NotPlaying);
        }
        self.is_playing = false;
        Ok(())
    }

    /// Handles a poll of whether playback has finished.
    pub fn poll_playback(&mut self, player_finished: Option<bool>) -> (finished: bool)
        ensures
            (finished, final(self)@) == poll_playback_step(old(self)@, player_finished),
    {
        let finished = match player_finished {
            Some(f) => f,
            None => true,
        };
        if finished {
            self.is_playing = false;
            self.player_finished = true;
        }
        finished
    }

    /// Switches one filter stream on or off.
    pub fn set_stream_enabled(&mut self, slot: StreamSlot, enabled: bool) -> (r: Result<(), EngineError>)
        ensures
            (r, final(self)@) == set_stream_step(old(self)@, slot, enabled),
    {
        if !self.model_loaded {
            return Err(EngineError::ModelNotLoaded);
        }
        match slot {
            StreamSlot::A => self.stream_a_enabled = enabled,
            StreamSlot::B => self.stream_b_enabled = enabled,
        }
        Ok(())
    }

    /// Whether a filter stream is enabled.
    pub fn is_stream_enabled(&self, slot: StreamSlot) -> (b: bool)
        ensures
            b == stream_enabled(self@, slot),
    {
        self.model_loaded && match slot {
            StreamSlot::A => self.stream_a_enabled,
            StreamSlot::B => self.stream_b_enabled,
        }
    }

    /// Whether a recording is running.
    pub fn is_recording(&self) -> (b: bool)
        ensures
            b == self@.is_recording,
    {
        self.is_recording
    }

    /// Whether a playback is running.
    pub fn is_playing(&self) -> (b: bool)
        ensures
            b == self@.is_playing,
    {
        self.is_playing
    }

    /// The status for the user interface; `recorder_duration_ms` is the
    /// running recorder's duration, or `None` when there is no recorder.
    pub fn status(&self, recorder_duration_ms: Option<u64>) -> (st: RecordingStatus)
        ensures
            st.is_recording == self@.is_recording,
            st.is_playing == self@.is_playing,
            st.duration_ms == (match recorder_duration_ms {
                Some(d) => d,
                None => 0,
            }),
            st.stream_a_enabled == stream_enabled(self@, StreamSlot::A),
            st.stream_b_enabled == stream_enabled(self@, StreamSlot::B),
            st.error is None,
    {
        let duration_ms = match recorder_duration_ms {
            Some(d) => d,
            None => 0,
        };
        RecordingStatus {
            is_recording: self.is_recording,
            is_playing: self.is_playing,
            duration_ms,
            stream_a_enabled: self.is_stream_enabled(StreamSlot::A),
            stream_b_enabled: self.is_stream_enabled(StreamSlot::B),
            error: None,
        }
    }
}

/// A recording cannot start before a model has been validated, nor while
/// another recording runs.
pub proof fn law_recording_preconditions(s: EngineView)
    ensures
        s.is_recording ==> start_recording_check(s) == Err::<(), EngineError>(EngineError::AlreadyRecording),
        !s.is_recording && !s.model_loaded ==> start_recording_check(s) == Err::<(), EngineError>(EngineError::ModelNotLoaded),
        s.model_loaded && !s.is_recording ==> start_recording_check(s) is Ok,
{
}

/// Once started, a recording can be stopped but not started again; stopping
/// it brings the engine back to the state it had before the start.
pub proof fn law_stop_recording_undoes_start(s: EngineView)
    requires
        start_recording_check(s) is Ok,
    ensures
        stop_recording_check(after_recording_started(s)) is Ok,
        start_recording_check(after_recording_started(s)) == Err::<(), EngineError>(EngineError::AlreadyRecording),
        after_recording_stopped(after_recording_started(s)) == s,
{
}

/// Once started, a playback can be stopped but not started again; after the
/// stop nothing plays and playback has not finished.
pub proof fn law_stop_playback_after_start(s: EngineView)
    requires
        start_playback_check(s) is Ok,
    ensures
        start_playback_check(after_playback_started(s)) == Err::<(), EngineError>(EngineError::AlreadyPlaying),
        stop_playback_step(after_playback_started(s)).0 is Ok,
        stop_playback_step(after_playback_started(s)).1 == (EngineView { is_playing: false, player_finished: false, ..s }),
        stop_playback_step(stop_playback_step(after_playback_started(s)).1).0 == Err::<(), EngineError>(EngineError::NotPlaying),
{
}

/// When the player reports the end (or is gone), the engine stops playing
/// and a new playback may start.
pub proof fn law_finished_playback_can_restart(s: EngineView, player: Option<bool>)
    requires
        player is None || player == Some(true),
    ensures
        poll_playback_step(s, player).0,
        !poll_playback_step(s, player).1.is_playing,
        start_playback_check(poll_playback_step(s, player).1) is Ok,
{
}

/// Every step keeps the engine's invariant, starting from the initial state.
pub proof fn law_engine_invariant(s: EngineView, valid: bool, player: Option<bool>, slot: StreamSlot, enabled: bool)
    requires
        engine_wf(s),
    ensures
        engine_wf(engine_initial()),
        engine_wf(after_model_validation(s, valid)),
        start_recording_check(s) is Ok ==> engine_wf(after_recording_started(s)),
        engine_wf(after_recording_stopped(s)),
        engine_wf(after_playback_started(s)),
        engine_wf(stop_playback_step(s).1),
        engine_wf(poll_playback_step(s, player).1),
        engine_wf(set_stream_step(s, slot, enabled).1),
{
}

/// After every successful model load both streams filter, whatever they
/// were switched to before.
pub proof fn law_reload_enables_both_streams(s: EngineView)
    ensures
        stream_enabled(after_model_validation(s, true), StreamSlot::A),
        stream_enabled(after_model_validation(s, true), StreamSlot::B),
        after_model_validation(s, false) == s,
{
}

/// Switching a stream is read back by `is_stream_enabled` once a model is
/// loaded, and leaves the other stream as it was.
pub proof fn law_stream_switch_read_back(s: EngineView, slot: StreamSlot, other: StreamSlot, enabled: bool)
    requires
        s.model_loaded,
        other != slot,
    ensures
        set_stream_step(s, slot, enabled).0 is Ok,
        stream_enabled(set_stream_step(s, slot, enabled).1, slot) == enabled,
        stream_enabled(set_stream_step(s, slot, enabled).1, other) == stream_enabled(s, other),
{
}

/// The message shown to the user for a refused request.
pub open spec fn spec_engine_message(e: EngineError) -> Seq<char> {
    match e {
        EngineError::AlreadyRecording => "Already recording"@,
        EngineError::ModelNotLoaded => "DeepFilter model not loaded. Call init_engine first."@,
        EngineError::NotRecording => "Not recording"@,
        EngineError::AlreadyPlaying => "Already playing"@,
        EngineError::NotPlaying => "Not playing"@,
    }
}

impl EngineError {
    /// The message shown to the user.
    pub fn message(&self) -> (m: &'static str)
        ensures
            m@ == spec_engine_message(*self),
    {
        match self {
            EngineError::AlreadyRecording => "Already recording",
            EngineError::ModelNotLoaded => "DeepFilter model not loaded. Call init_engine first.",
            EngineError::NotRecording => "Not recording",
            EngineError::AlreadyPlaying => "Already playing",
            EngineError::NotPlaying => "Not playing",
        }
    }
}

/// A start of playback is refused only while a playback is running: once
/// nothing plays (never started, stopped, or finished) it is accepted, so a
/// stopped playback can be started again.
pub proof fn law_playback_refused_only_while_playing(s: EngineView)
    ensures
        start_playback_check(s) is Ok <==> !s.is_playing,
        start_playback_check(stop_playback_step(after_playback_started(s)).1) is Ok,
        start_playback_check(stop_playback_step(s).1) is Ok,
{
}

} // verus!
