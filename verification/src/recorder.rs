//! Capture state of a recording session.
use vstd::prelude::*;
use crate::seqs::{append_copies, copy_all};

verus! {

/// Abstract state of a recorder.
pub struct RecorderView<T> {
    pub path: Seq<char>,
    pub recording: bool,
    pub samples: Seq<T>,
}

/// What a recording holds while audio arrives from the input device: the
/// captured samples and whether capture is running. The device stream
/// itself is driven outside this type; it hands each callback buffer to
/// `on_input`. The recording's duration is counted in captured samples.
pub struct AudioRecorder<T> {
    output_path: String,
    is_recording: bool,
    raw_samples: Vec<T>,
}

impl<T> View for AudioRecorder<T> {
    type V = RecorderView<T>;

    closed spec fn view(&self) -> RecorderView<T> {
        RecorderView { path: self.output_path@, recording: self.is_recording, samples: self.raw_samples@ }
    }
}

/// Milliseconds of audio in `samples` samples at the engine's sample rate.
pub open spec fn spec_duration_ms(samples: nat) -> nat {
    (samples * 1000) / 48000
}

impl<T: Copy> AudioRecorder<T> {
    /// A recorder for `output_path`, not yet capturing, with nothing captured.
    pub fn new(output_path: String) -> (r: Self)
        ensures
            r@ == (RecorderView { path: output_path@, recording: false, samples: Seq::<T>::empty() }),
    {
        AudioRecorder { output_path, is_recording: false, raw_samples: Vec::new() }
    }

    /// Drops every captured sample (done before a new capture is opened).
    pub fn clear_samples(&mut self)
        ensures
            final(self)@ == (RecorderView { samples: Seq::<T>::empty(), ..old(self)@ }),
    {
        self.raw_samples.clear();
    }

    /// Starts a new capture: earlier samples are dropped and capture runs.
    pub fn start(&mut self)
        ensures
            final(self)@ == (RecorderView { recording: true, samples: Seq::<T>::empty(), ..old(self)@ }),
    {
        self.raw_samples.clear();
        self.is_recording = true;
    }

    /// Handles one buffer from the input device. While capturing, the buffer
    /// is appended; otherwise nothing changes. Returns whether capture is
    /// still running (the device callback stops when it is not).
    pub fn on_input(&mut self, data: &[T]) -> (keep_going: bool)
        requires
            old(self)@.samples.len() + data@.len() <= usize::MAX,
        ensures
            keep_going == old(self)@.recording,
            old(self)@.recording ==> final(self)@ == (RecorderView { samples: old(self)@.samples + data@, ..old(self)@ }),
            !old(self)@.recording ==> final(self)@ == old(self)@,
    {
        if !self.is_recording {
            return false;
        }
        append_copies(&mut self.raw_samples, data);
        true
    }

    /// Ends capture and hands back a copy of the captured samples together
    /// with the output path.
    pub fn stop(&mut self) -> (r: (Vec<T>, String))
        ensures
            final(self)@ == (RecorderView { recording: false, ..old(self)@ }),
            r.0@ == old(self)@.samples,
            r.1@ == old(self)@.path,
    {
        self.is_recording = false;
        (copy_all(self.raw_samples.as_slice()), self.output_path.clone())
    }

    /// Whether capture is running.
    pub fn is_recording(&self) -> (b: bool)
        ensures
            b == self@.recording,
    {
        self.is_recording
    }

    /// Number of samples captured.
    pub fn captured_len(&self) -> (n: usize)
        ensures
            n == self@.samples.len(),
    {
        self.raw_samples.len()
    }

    /// Length of the captured audio in milliseconds.
    pub fn duration_ms(&self) -> (ms: u64)
        ensures
            ms == spec_duration_ms(self@.samples.len()),
    {
        let n = self.raw_samples.len() as u64;
        // (n * 1000) / 48000 == n / 48, computed without the intermediate product.
        assert((n as nat * 1000) / 48000 == n as nat / 48) by (nonlinear_arith);
        n / 48
    }
}

} // verus!
