//! Per-stream control of the noise filter: frame checks, the enable switch,
//! the warm-up period, and the index arithmetic of the deep-filtering ring
//! buffer. The spectra and network outputs themselves are floating point
//! and are handled outside this module; it tells that code which frame to
//! process how, and which buffer cells each filter tap reads.
use vstd::prelude::*;
use crate::model::{DfConfig, DfConfigView};

verus! {

/// Number of frames processed before the networks are first run; during
/// this warm-up the normalisation statistics settle.
pub const WARMUP_FRAMES: u64 = 10;

/// What to do with one frame.
#[derive(PartialEq, Eq, Structural, Clone, Copy, Debug)]
pub enum FrameAction {
    /// The stream is disabled: the output is the input.
    Passthrough,
    /// Analyse and synthesise the frame; run the networks and the filter
    /// only when `run_inference` is set.
    Process { run_inference: bool },
}

/// A frame of the wrong length was offered.
#[derive(PartialEq, Eq, Structural, Clone, Copy, Debug)]
pub struct FrameSizeError {
    pub input: usize,
    pub output: usize,
    pub expected: usize,
}

/// Sizes of the per-stream buffers.
#[derive(PartialEq, Eq, Structural, Clone, Copy, Debug)]
pub struct BufferSizes {
    /// Frequency bins of the spectrum.
    pub spectrum: usize,
    /// ERB features.
    pub erb_features: usize,
    /// Interleaved complex features of the deep-filtered bins.
    pub complex_features: usize,
    /// ERB gains.
    pub gains: usize,
    /// Interleaved complex filter coefficients.
    pub df_coefs: usize,
    /// Ring buffer of past spectra of the deep-filtered bins.
    pub df_buffer: usize,
}

/// One tap of the deep filter for one bin: the ring-buffer cell it reads
/// and the index of the real part of its coefficient (the imaginary part
/// follows it).
#[derive(PartialEq, Eq, Structural, Clone, Copy, Debug)]
pub struct DfTap {
    pub buffer_index: usize,
    pub coef_index: usize,
}

/// Abstract state of a stream processor.
pub struct StreamView {
    pub stream_id: u32,
    pub enabled: bool,
    pub frame_count: nat,
    pub df_index: nat,
    pub sr: nat,
    pub fft_size: nat,
    pub hop_size: nat,
    pub nb_erb: nat,
    pub nb_df: nat,
    pub df_order: nat,
}

/// Control state of one filter stream.
pub struct StreamProcessor {
    stream_id: u32,
    enabled: bool,
    frame_count: u64,
    df_buf_idx: usize,
    sr: usize,
    fft_size: usize,
    hop_size: usize,
    nb_erb: usize,
    nb_df: usize,
    df_order: usize,
}

impl StreamProcessor {
    /// The buffer sizes fit a `usize` and the ring index lies in the ring.
    #[verifier::type_invariant]
    spec fn sizes_fit(&self) -> bool {
        stream_wf(self@)
    }
}

impl View for StreamProcessor {
    type V = StreamView;

    closed spec fn view(&self) -> StreamView {
        StreamView {
            stream_id: self.stream_id,
            enabled: self.enabled,
            frame_count: self.frame_count as nat,
            df_index: self.df_buf_idx as nat,
            sr: self.sr as nat,
            fft_size: self.fft_size as nat,
            hop_size: self.hop_size as nat,
            nb_erb: self.nb_erb as nat,
            nb_df: self.nb_df as nat,
            df_order: self.df_order as nat,
        }
    }
}

/// The buffers fit in memory's address range, and the ring index points
/// into the ring (or is 0 for an empty ring).
pub open spec fn stream_wf(s: StreamView) -> bool {
    &&& s.nb_df * s.df_order * 2 <= usize::MAX
    &&& s.nb_df * 2 <= usize::MAX
    &&& (s.df_order > 0 ==> s.df_index < s.df_order)
    &&& (s.df_order == 0 ==> s.df_index == 0)
}

/// The state of a new processor for stream `stream_id` with the model's
/// configuration `config`: enabled, no frame processed, ring index 0.
pub open spec fn fresh_stream(config: DfConfigView, stream_id: u32) -> StreamView {
    StreamView {
        stream_id,
        enabled: true,
        frame_count: 0,
        df_index: 0,
        sr: config.sr as nat,
        fft_size: config.fft_size as nat,
        hop_size: config.hop_size as nat,
        nb_erb: config.nb_erb as nat,
        nb_df: config.nb_df as nat,
        df_order: config.df_order as nat,
    }
}

/// The decision for a frame with input and output buffers of the given
/// lengths, and the state afterwards.
pub open spec fn spec_begin_frame(s: StreamView, input_len: nat, output_len: nat) -> (Result<FrameAction, FrameSizeError>, StreamView) {
    if input_len != s.hop_size || output_len != s.hop_size {
        (Err(FrameSizeError { input: input_len as usize, output: output_len as usize, expected: s.hop_size as usize }), s)
    } else if !s.enabled {
        (Ok(FrameAction::Passthrough), s)
    } else {
        let count = s.frame_count + 1;
        (Ok(FrameAction::Process { run_inference: count > WARMUP_FRAMES }), StreamView { frame_count: count, ..s })
    }
}

/// The ring cell that tap `t` of bin `bin` reads: the frame stored `t`
/// frames ago.
pub open spec fn tap_buffer_index(s: StreamView, bin: nat, t: nat) -> int {
    ((s.df_index + s.df_order - t) % (s.df_order as int)) * s.nb_df + bin
}

/// The coefficient index of tap `t` of bin `bin`.
pub open spec fn tap_coef_index(s: StreamView, bin: nat, t: nat) -> int {
    ((t * s.nb_df + bin) * 2) as int
}

/// Whether tap `t` of bin `bin` lies within buffers of the given lengths.
pub open spec fn tap_in_range(s: StreamView, bin: nat, t: nat, buffer_len: nat, coef_len: nat) -> bool {
    tap_buffer_index(s, bin, t) < buffer_len && tap_coef_index(s, bin, t) + 1 < coef_len
}

/// The taps of bin `bin` among the first `k` orders that lie within the
/// buffers, in order of increasing age.
pub open spec fn taps_upto(s: StreamView, bin: nat, k: nat, buffer_len: nat, coef_len: nat) -> Seq<DfTap>
    decreases k,
{
    if k == 0 {
        Seq::empty()
    } else {
        let t = (k - 1) as nat;
        let prev = taps_upto(s, bin, t, buffer_len, coef_len);
        if tap_in_range(s, bin, t, buffer_len, coef_len) {
            prev.push(DfTap { buffer_index: tap_buffer_index(s, bin, t) as usize, coef_index: tap_coef_index(s, bin, t) as usize })
        } else {
            prev
        }
    }
}

/// A ring cell index stays below the ring's size.
proof fn lemma_ring_cell_bound(cell: nat, order: nat, nb_df: nat, bin: nat)
    requires
        cell < order || (order == 0 && cell == 0),
        bin < nb_df,
        nb_df * order * 2 <= usize::MAX,
        nb_df * 2 <= usize::MAX,
    ensures
        cell * nb_df + bin < usize::MAX,
        order > 0 ==> cell * nb_df + bin < order * nb_df,
{
    if order > 0 {
        assert(cell * nb_df + bin < order * nb_df) by (nonlinear_arith)
            requires
                cell < order,
                bin < nb_df,
        ;
        assert(order * nb_df <= nb_df * order * 2) by (nonlinear_arith);
    } else {
        assert(cell * nb_df == 0) by (nonlinear_arith)
            requires
                cell == 0,
        ;
    }
}

/// A coefficient index and its successor stay below the coefficient count.
proof fn lemma_coef_bound(t: nat, order: nat, nb_df: nat, bin: nat)
    requires
        t < order,
        bin < nb_df,
        nb_df * order * 2 <= usize::MAX,
    ensures
        (t * nb_df + bin) * 2 + 1 < nb_df * order * 2,
        t * nb_df + bin < usize::MAX,
{
    assert(t * nb_df + bin < order * nb_df) by (nonlinear_arith)
        requires
            t < order,
            bin < nb_df,
    ;
    assert(order * nb_df == nb_df * order) by (nonlinear_arith);
}

/// With at least one bin, twice the filter order fits a `usize`.
proof fn lemma_order_bound(order: nat, nb_df: nat)
    requires
        nb_df >= 1,
        nb_df * order * 2 <= usize::MAX,
    ensures
        order * 2 <= usize::MAX,
{
    assert(order * 2 <= nb_df * order * 2) by (nonlinear_arith)
        requires
            nb_df >= 1,
    ;
}

impl StreamProcessor {
    /// A processor for stream `stream_id` with the model's configuration:
    /// enabled, no frame processed, ring index 0.
    pub fn new(config: &DfConfig, stream_id: u32) -> (p: Self)
        requires
            config.nb_df * config.df_order * 2 <= usize::MAX,
            config.nb_df * 2 <= usize::MAX,
        ensures
            stream_wf(p@),
            p@ == fresh_stream(config@, stream_id),
    {
        StreamProcessor {
            stream_id,
            enabled: true,
            frame_count: 0,
            df_buf_idx: 0,
            sr: config.sr,
            fft_size: config.fft_size,
            hop_size: config.hop_size,
            nb_erb: config.nb_erb,
            nb_df: config.nb_df,
            df_order: config.df_order,
        }
    }

    /// Sizes of the buffers this stream needs.
    pub fn buffer_sizes(&self) -> (b: BufferSizes)
        ensures
            b.spectrum == self@.fft_size / 2 + 1,
            b.erb_features == self@.nb_erb,
            b.complex_features == self@.nb_df * 2,
            b.gains == self@.nb_erb,
            b.df_coefs == self@.nb_df * self@.df_order * 2,
            b.df_buffer == self@.df_order * self@.nb_df,
    {
        proof {
            use_type_invariant(self);
            assert(self.df_order * self.nb_df == self.nb_df * self.df_order) by (nonlinear_arith);
            assert(self.nb_df * self.df_order <= self.nb_df * self.df_order * 2) by (nonlinear_arith);
        }
        BufferSizes {
            spectrum: self.fft_size / 2 + 1,
            erb_features: self.nb_erb,
            complex_features: self.nb_df * 2,
            gains: self.nb_erb,
            df_coefs: self.nb_df * self.df_order * 2,
            df_buffer: self.df_order * self.nb_df,
        }
    }

    /// Switches the stream on or off.
    pub fn set_enabled(&mut self, enabled: bool)
        ensures
            final(self)@ == (StreamView { enabled, ..old(self)@ }),
    {
        proof {
            use_type_invariant(&*self);
        }
        self.enabled = enabled;
    }

    /// Whether the stream filters.
    pub fn is_enabled(&self) -> (b: bool)
        ensures
            b == self@.enabled,
    {
        self.enabled
    }

    /// Decides how to handle a frame with input and output buffers of the
    /// given lengths: both must be one hop long; a disabled stream passes
    /// the input through; an enabled one counts the frame and runs the
    /// networks once the warm-up is over.
    pub fn begin_frame(&mut self, input_len: usize, output_len: usize) -> (r: Result<FrameAction, FrameSizeError>)
        requires
            old(self)@.frame_count < u64::MAX,
        ensures
            (r, final(self)@) == spec_begin_frame(old(self)@, input_len as nat, output_len as nat),
    {
        if input_len != self.hop_size || output_len != self.hop_size {
            return Err(FrameSizeError { input: input_len, output: output_len, expected: self.hop_size });
        }
        if !self.enabled {
            return Ok(FrameAction::Passthrough);
        }
        proof {
            use_type_invariant(&*self);
        }
        self.frame_count = self.frame_count + 1;
        Ok(FrameAction::Process { run_inference: self.frame_count > WARMUP_FRAMES })
    }

    /// Number of frames processed since creation or the last reset.
    pub fn frame_count(&self) -> (n: u64)
        ensures
            n == self@.frame_count,
    {
        self.frame_count
    }

    /// Where bin `bin` of the current frame is stored in the ring buffer,
    /// if that cell exists and the spectrum has that bin.
    pub fn df_store_index(&self, bin: usize, buffer_len: usize, spectrum_len: usize) -> (r: Option<usize>)
        requires
            bin < self@.nb_df,
        ensures
            ({
                let idx = self@.df_index * self@.nb_df + bin;
                if idx < buffer_len && bin < spectrum_len {
                    r == Some(idx as usize)
                } else {
                    r is None
                }
            }),
    {
        proof {
            use_type_invariant(self);
            lemma_ring_cell_bound(self.df_buf_idx as nat, self.df_order as nat, self.nb_df as nat, bin as nat);
        }
        let idx = self.df_buf_idx * self.nb_df + bin;
        if idx < buffer_len && bin < spectrum_len {
            Some(idx)
        } else {
            None
        }
    }

    /// The taps of the deep filter for bin `bin`, in order of increasing
    /// age, restricted to buffers of the given lengths.
    pub fn df_taps(&self, bin: usize, buffer_len: usize, coef_len: usize) -> (taps: Vec<DfTap>)
        requires
            bin < self@.nb_df,
        ensures
            taps@ == taps_upto(self@, bin as nat, self@.df_order, buffer_len as nat, coef_len as nat),
    {
        let ghost v = self@;
        proof {
            use_type_invariant(self);
            lemma_order_bound(self.df_order as nat, self.nb_df as nat);
        }
        let mut taps: Vec<DfTap> = Vec::new();
        let mut t: usize = 0;
        while t < self.df_order
            invariant
                v == self@,
                stream_wf(v),
                bin < v.nb_df,
                t <= v.df_order,
                v.df_order * 2 <= usize::MAX,
                taps@ == taps_upto(v, bin as nat, t as nat, buffer_len as nat, coef_len as nat),
            decreases v.df_order - t,
        {
            let order = self.df_order;
            let buf_t = (self.df_buf_idx + order - t) % order;
            proof {
                lemma_ring_cell_bound(buf_t as nat, order as nat, self.nb_df as nat, bin as nat);
                lemma_coef_bound(t as nat, order as nat, self.nb_df as nat, bin as nat);
            }
            let buffer_index = buf_t * self.nb_df + bin;
            let coef_index = (t * self.nb_df + bin) * 2;
            if buffer_index < buffer_len && coef_index + 1 < coef_len {
                taps.push(DfTap { buffer_index, coef_index });
            }
            t = t + 1;
        }
        taps
    }

    /// Moves the ring index to the next cell, wrapping around.
    pub fn advance_df_index(&mut self)
        requires
            old(self)@.df_order > 0,
        ensures
            final(self)@ == (StreamView { df_index: (old(self)@.df_index + 1) % old(self)@.df_order, ..old(self)@ }),
    {
        proof {
            use_type_invariant(&*self);
        }
        self.df_buf_idx = (self.df_buf_idx + 1) % self.df_order;
    }

    /// Forgets all history: no frame processed, ring index 0.
    pub fn reset(&mut self)
        ensures
            final(self)@ == (StreamView { frame_count: 0, df_index: 0, ..old(self)@ }),
    {
        proof {
            use_type_invariant(&*self);
        }
        self.frame_count = 0;
        self.df_buf_idx = 0;
    }

    /// Number of deep-filtered frequency bins.
    pub fn nb_df(&self) -> (n: usize)
        ensures
            n == self@.nb_df,
    {
        self.nb_df
    }

    /// Order of the deep filter (number of past frames it combines).
    pub fn df_order(&self) -> (n: usize)
        ensures
            n == self@.df_order,
    {
        self.df_order
    }

    /// The stream's identifier.
    pub fn stream_id(&self) -> (id: u32)
        ensures
            id == self@.stream_id,
    {
        self.stream_id
    }

    /// The model's sample rate.
    pub fn sample_rate(&self) -> (sr: usize)
        ensures
            sr == self@.sr,
    {
        self.sr
    }

    /// Samples per frame.
    pub fn hop_size(&self) -> (h: usize)
        ensures
            h == self@.hop_size,
    {
        self.hop_size
    }
}

/// Splits `n` interleaved complex values (real, imaginary, real, ...) into
/// the `n` real parts followed by the `n` imaginary parts, the channel
/// layout the encoder network takes.
pub fn deinterleave<T: Copy>(interleaved: &[T], n: usize) -> (planar: Vec<T>)
    requires
        2 * n <= interleaved@.len(),
    ensures
        planar@.len() == 2 * n,
        forall|i: int| 0 <= i < n ==> #[trigger] planar@[i] == interleaved@[2 * i],
        forall|i: int| 0 <= i < n ==> #[trigger] planar@[n + i] == interleaved@[2 * i + 1],
{
    let len = interleaved.len();
    let mut planar: Vec<T> = Vec::with_capacity(2 * n);
    let mut i: usize = 0;
    while i < n
        invariant
            i <= n,
            2 * n <= interleaved@.len(),
            len == interleaved@.len(),
            planar@.len() == i,
            forall|j: int| 0 <= j < i ==> #[trigger] planar@[j] == interleaved@[2 * j],
        decreases n - i,
    {
        planar.push(interleaved[2 * i]);
        i = i + 1;
    }
    let mut i: usize = 0;
    while i < n
        invariant
            i <= n,
            2 * n <= interleaved@.len(),
            len == interleaved@.len(),
            planar@.len() == n + i,
            forall|j: int| 0 <= j < n ==> #[trigger] planar@[j] == interleaved@[2 * j],
            forall|j: int| 0 <= j < i ==> #[trigger] planar@[n + j] == interleaved@[2 * j + 1],
        decreases n - i,
    {
        planar.push(interleaved[2 * i + 1]);
        i = i + 1;
    }
    planar
}

/// Copies `src` over the start of `dst`, as far as both reach; the rest of
/// `dst` keeps its values. This is how network outputs are taken into the
/// gain and coefficient buffers.
pub fn overwrite_prefix<T: Copy>(dst: &mut Vec<T>, src: &[T])
    ensures
        final(dst)@.len() == old(dst)@.len(),
        forall|i: int| 0 <= i < final(dst)@.len() ==> #[trigger] final(dst)@[i] == if i < src@.len() {
            src@[i]
        } else {
            old(dst)@[i]
        },
{
    let n = if src.len() < dst.len() { src.len() } else { dst.len() };
    let mut i: usize = 0;
    while i < n
        invariant
            n <= src@.len(),
            n <= dst@.len(),
            n == src@.len() || n == old(dst)@.len(),
            i <= n,
            dst@.len() == old(dst)@.len(),
            forall|j: int| 0 <= j < dst@.len() ==> #[trigger] dst@[j] == if j < i {
                src@[j]
            } else {
                old(dst)@[j]
            },
        decreases n - i,
    {
        dst.set(i, src[i]);
        i = i + 1;
    }
}

/// A disabled stream passes every frame of the right size through, and its
/// state (frame count included) does not change.
pub proof fn law_disabled_stream_passes_through(s: StreamView, len: nat)
    requires
        !s.enabled,
        len == s.hop_size,
    ensures
        spec_begin_frame(s, len, len) == (Ok::<FrameAction, FrameSizeError>(FrameAction::Passthrough), s),
{
}

/// After creation or a reset, the first ten frames processed skip the
/// networks (warm-up) and every later frame runs them.
pub proof fn law_warmup(s: StreamView, len: nat)
    requires
        s.enabled,
        len == s.hop_size,
    ensures
        spec_begin_frame(s, len, len).0 == Ok::<FrameAction, FrameSizeError>(
            FrameAction::Process { run_inference: s.frame_count >= WARMUP_FRAMES },
        ),
        spec_begin_frame(s, len, len).1.frame_count == s.frame_count + 1,
{
}

/// One call made on a stream processor: a frame with input and output
/// buffers of the given lengths, switching the stream on or off, a reset,
/// or moving the ring index on.
pub enum StreamEvent {
    Frame(nat, nat),
    Enable(bool),
    Reset,
    AdvanceDf,
}

/// The state after one call. (Moving the ring index of a stream without a
/// ring is refused by `advance_df_index`; here it changes nothing.)
pub open spec fn spec_step(s: StreamView, e: StreamEvent) -> StreamView {
    match e {
        StreamEvent::Frame(input_len, output_len) => spec_begin_frame(s, input_len, output_len).1,
        StreamEvent::Enable(enabled) => StreamView { enabled, ..s },
        StreamEvent::Reset => StreamView { frame_count: 0, df_index: 0, ..s },
        StreamEvent::AdvanceDf => if s.df_order > 0 {
            StreamView { df_index: (s.df_index + 1) % s.df_order, ..s }
        } else {
            s
        },
    }
}

/// The state after a run of calls, in order.
pub open spec fn run_events(s: StreamView, events: Seq<StreamEvent>) -> StreamView
    decreases events.len(),
{
    if events.len() == 0 {
        s
    } else {
        spec_step(run_events(s, events.drop_last()), events.last())
    }
}

/// How many frames the stream processed since the start of the run or the
/// last reset in it: frames of the right size, offered while the stream
/// was enabled.
pub open spec fn processed_frames(s: StreamView, events: Seq<StreamEvent>) -> nat
    decreases events.len(),
{
    if events.len() == 0 {
        0
    } else {
        let before = run_events(s, events.drop_last());
        match events.last() {
            StreamEvent::Frame(input_len, output_len) => processed_frames(s, events.drop_last()) + if before.enabled
                && input_len == before.hop_size && output_len == before.hop_size {
                1nat
            } else {
                0nat
            },
            StreamEvent::Reset => 0,
            _ => processed_frames(s, events.drop_last()),
        }
    }
}

/// The switch's value after a run of calls: that of the last `Enable` in
/// it, or `enabled` when there is none.
pub open spec fn last_switch(enabled: bool, events: Seq<StreamEvent>) -> bool
    decreases events.len(),
{
    if events.len() == 0 {
        enabled
    } else {
        match events.last() {
            StreamEvent::Enable(b) => b,
            _ => last_switch(enabled, events.drop_last()),
        }
    }
}

/// A run of calls changes only the switch, the frame count and the ring
/// index; the switch keeps the value of the last `Enable`; the ring index
/// stays in the ring.
proof fn lemma_run_events(s: StreamView, events: Seq<StreamEvent>)
    ensures
        run_events(s, events) == (StreamView {
            enabled: run_events(s, events).enabled,
            frame_count: run_events(s, events).frame_count,
            df_index: run_events(s, events).df_index,
            ..s
        }),
        run_events(s, events).enabled == last_switch(s.enabled, events),
        stream_wf(s) ==> stream_wf(run_events(s, events)),
        s.frame_count == 0 ==> run_events(s, events).frame_count == processed_frames(s, events),
    decreases events.len(),
{
    if events.len() > 0 {
        lemma_run_events(s, events.drop_last());
    }
}

/// The warm-up over any run of calls after creation or a reset: the frames
/// that the stream processes are counted from the last reset, and the next
/// one runs the networks exactly when ten or more were processed before it.
/// So the first ten processed frames skip the networks and every later one
/// runs them, whatever frames of the wrong size, frames offered while
/// disabled, or moves of the ring index come between.
pub proof fn law_warmup_over_calls(s: StreamView, events: Seq<StreamEvent>, len: nat)
    requires
        s.frame_count == 0,
    ensures
        run_events(s, events).frame_count == processed_frames(s, events),
        run_events(s, events).hop_size == s.hop_size,
        run_events(s, events).enabled && len == s.hop_size ==> spec_begin_frame(run_events(s, events), len, len).0
            == Ok::<FrameAction, FrameSizeError>(
            FrameAction::Process { run_inference: processed_frames(s, events) >= WARMUP_FRAMES },
        ),
{
    lemma_run_events(s, events);
}

/// The switch keeps the value given by the last `set_enabled`: frames,
/// resets and moves of the ring index leave it as it is.
pub proof fn law_switch_kept(s: StreamView, events: Seq<StreamEvent>)
    ensures
        run_events(s, events).enabled == last_switch(s.enabled, events),
        forall|j: int|
            0 <= j < events.len() && events[j] is Enable ==> (#[trigger] events[j]) == StreamEvent::Enable(
                run_events(s, events.subrange(0, j + 1)).enabled,
            ),
{
    lemma_run_events(s, events);
    assert forall|j: int| 0 <= j < events.len() && events[j] is Enable implies (#[trigger] events[j])
        == StreamEvent::Enable(run_events(s, events.subrange(0, j + 1)).enabled) by {
        let pre = events.subrange(0, j + 1);
        assert(pre.drop_last() == events.subrange(0, j));
        assert(pre.last() == events[j]);
    }
}

/// A reset brings any processor made from a configuration and a stream id
/// back to the state of a new one from the same configuration and id,
/// switched as it was.
pub proof fn law_reset_is_fresh(config: DfConfigView, stream_id: u32, events: Seq<StreamEvent>)
    ensures
        ({
            let s = run_events(fresh_stream(config, stream_id), events);
            spec_step(s, StreamEvent::Reset) == spec_step(
                fresh_stream(config, stream_id),
                StreamEvent::Enable(s.enabled),
            )
        }),
{
    lemma_run_events(fresh_stream(config, stream_id), events);
}

/// The calls of an interleaved run on two processors, each tagged with the
/// processor it goes to (`true` for the first).
pub open spec fn calls_to(calls: Seq<(bool, StreamEvent)>, first: bool) -> Seq<StreamEvent>
    decreases calls.len(),
{
    if calls.len() == 0 {
        Seq::empty()
    } else if calls.last().0 == first {
        calls_to(calls.drop_last(), first).push(calls.last().1)
    } else {
        calls_to(calls.drop_last(), first)
    }
}

/// Both processors' states after an interleaved run of calls.
pub open spec fn run_pair(a: StreamView, b: StreamView, calls: Seq<(bool, StreamEvent)>) -> (StreamView, StreamView)
    decreases calls.len(),
{
    if calls.len() == 0 {
        (a, b)
    } else {
        let (x, y) = run_pair(a, b, calls.drop_last());
        if calls.last().0 {
            (spec_step(x, calls.last().1), y)
        } else {
            (x, spec_step(y, calls.last().1))
        }
    }
}

/// Two processors evolve independently: however calls on them are
/// interleaved, each ends as if it had received its own calls alone, so
/// each next frame is decided as it would be alone.
pub proof fn law_streams_independent(
    a: StreamView,
    b: StreamView,
    calls: Seq<(bool, StreamEvent)>,
    input_len: nat,
    output_len: nat,
)
    ensures
        run_pair(a, b, calls) == (run_events(a, calls_to(calls, true)), run_events(b, calls_to(calls, false))),
        spec_begin_frame(run_pair(a, b, calls).0, input_len, output_len) == spec_begin_frame(
            run_events(a, calls_to(calls, true)),
            input_len,
            output_len,
        ),
        spec_begin_frame(run_pair(a, b, calls).1, input_len, output_len) == spec_begin_frame(
            run_events(b, calls_to(calls, false)),
            input_len,
            output_len,
        ),
    decreases calls.len(),
{
    if calls.len() > 0 {
        law_streams_independent(a, b, calls.drop_last(), input_len, output_len);
        let ea = calls_to(calls, true);
        let eb = calls_to(calls, false);
        if calls.last().0 {
            assert(ea.drop_last() == calls_to(calls.drop_last(), true));
            assert(ea.last() == calls.last().1);
        } else {
            assert(eb.drop_last() == calls_to(calls.drop_last(), false));
            assert(eb.last() == calls.last().1);
        }
    }
}

/// Frames of the wrong size are refused and change nothing.
pub proof fn law_wrong_size_refused(s: StreamView, input_len: nat, output_len: nat)
    requires
        input_len != s.hop_size || output_len != s.hop_size,
    ensures
        spec_begin_frame(s, input_len, output_len).0 is Err,
        spec_begin_frame(s, input_len, output_len).1 == s,
{
}

/// The deep filter's ring buffer: tap 0 reads the cell where the current
/// frame is stored, and after the ring index advances, tap `t + 1` reads the
/// cell that tap `t` read before, i.e. the same past frame one step older.
pub proof fn law_ring_taps_shift(s: StreamView, bin: nat, t: nat)
    requires
        stream_wf(s),
        s.df_order > 0,
        t + 1 < s.df_order,
    ensures
        tap_buffer_index(s, bin, 0) == s.df_index * s.nb_df + bin,
        tap_buffer_index(
            StreamView { df_index: (s.df_index + 1) % s.df_order, ..s },
            bin,
            t + 1,
        ) == tap_buffer_index(s, bin, t),
{
    let o = s.df_order as int;
    let i = s.df_index as int;
    assert((i + o - 0) % o == i) by (nonlinear_arith)
        requires
            0 <= i < o,
    ;
    let next = (i + 1) % o;
    assert((next + o - (t + 1)) % o == (i + o - t) % o) by (nonlinear_arith)
        requires
            0 <= i < o,
            0 <= t,
            t + 1 < o,
            next == (i + 1) % o,
    ;
}

/// How the outputs of the two streams make one frame.
#[derive(PartialEq, Eq, Structural, Clone, Copy, Debug)]
pub enum StreamMix {
    /// A stream failed: the frame stays unfiltered.
    Unfiltered,
    /// Both streams filter: their outputs are averaged.
    Average,
    /// Only stream A filters: its output is used.
    OnlyA,
    /// Only stream B filters: its output is used.
    OnlyB,
    /// Neither stream filters: both passed the input through, which is used.
    Passthrough,
}

/// Both streams process the same frame; the result is the average of the
/// enabled streams, a disabled stream's output being its input. When a
/// stream reports an error, the frame is left unfiltered.
pub open spec fn spec_mix(a_enabled: bool, a_ok: bool, b_enabled: bool, b_ok: bool) -> StreamMix {
    if !a_ok || !b_ok {
        StreamMix::Unfiltered
    } else if a_enabled && b_enabled {
        StreamMix::Average
    } else if a_enabled {
        StreamMix::OnlyA
    } else if b_enabled {
        StreamMix::OnlyB
    } else {
        StreamMix::Passthrough
    }
}

/// Decides how the two streams' outputs make one frame.
pub fn mix_streams(a_enabled: bool, a_ok: bool, b_enabled: bool, b_ok: bool) -> (m: StreamMix)
    ensures
        m == spec_mix(a_enabled, a_ok, b_enabled, b_ok),
{
    if !a_ok || !b_ok {
        StreamMix::Unfiltered
    } else if a_enabled && b_enabled {
        StreamMix::Average
    } else if a_enabled {
        StreamMix::OnlyA
    } else if b_enabled {
        StreamMix::OnlyB
    } else {
        StreamMix::Passthrough
    }
}

/// A disabled stream never contributes filtered audio of its own: the mix
/// takes only enabled streams' outputs, and with both disabled the input
/// passes through.
pub proof fn law_mix_uses_enabled_streams(a_enabled: bool, b_enabled: bool)
    ensures
        spec_mix(a_enabled, true, b_enabled, true) == StreamMix::OnlyA ==> a_enabled && !b_enabled,
        spec_mix(a_enabled, true, b_enabled, true) == StreamMix::OnlyB ==> b_enabled && !a_enabled,
        spec_mix(a_enabled, true, b_enabled, true) == StreamMix::Average <==> a_enabled && b_enabled,
        spec_mix(a_enabled, true, b_enabled, true) == StreamMix::Passthrough <==> !a_enabled && !b_enabled,
{
}

/// The shape of a stored network output, as one of the ranks the network
/// inputs are rebuilt with.
#[derive(Clone, Copy, Debug)]
pub enum TensorDims {
    Rank1([usize; 1]),
    Rank2([usize; 2]),
    Rank3([usize; 3]),
    Rank4([usize; 4]),
}

/// A shape of a rank other than 1 to 4.
#[derive(PartialEq, Eq, Structural, Clone, Copy, Debug)]
pub struct UnsupportedRank(pub usize);

/// The fixed-rank form of `shape`, for ranks 1 to 4.
pub fn tensor_dims(shape: &[usize]) -> (r: Result<TensorDims, UnsupportedRank>)
    ensures
        match r {
            Ok(TensorDims::Rank1(d)) => shape@.len() == 1 && d@ == shape@,
            Ok(TensorDims::Rank2(d)) => shape@.len() == 2 && d@ == shape@,
            Ok(TensorDims::Rank3(d)) => shape@.len() == 3 && d@ == shape@,
            Ok(TensorDims::Rank4(d)) => shape@.len() == 4 && d@ == shape@,
            Err(UnsupportedRank(n)) => n == shape@.len() && !(1 <= n <= 4),
        },
{
    let n = shape.len();
    if n == 1 {
        let d = [shape[0]];
        assert(d@ =~= shape@);
        Ok(TensorDims::Rank1(d))
    } else if n == 2 {
        let d = [shape[0], shape[1]];
        assert(d@ =~= shape@);
        Ok(TensorDims::Rank2(d))
    } else if n == 3 {
        let d = [shape[0], shape[1], shape[2]];
        assert(d@ =~= shape@);
        Ok(TensorDims::Rank3(d))
    } else if n == 4 {
        let d = [shape[0], shape[1], shape[2], shape[3]];
        assert(d@ =~= shape@);
        Ok(TensorDims::Rank4(d))
    } else {
        Err(UnsupportedRank(n))
    }
}

/// Deciding a frame changes nothing but the frame count: in particular the
/// ring index stays where it is (it moves only when the deep filter has
/// been applied, through `advance_df_index`), and so do the switch and the
/// configuration. The count grows by one exactly when the frame is
/// processed.
pub proof fn law_begin_frame_changes_only_count(s: StreamView, input_len: nat, output_len: nat)
    ensures
        spec_begin_frame(s, input_len, output_len).1 == (StreamView {
            frame_count: spec_begin_frame(s, input_len, output_len).1.frame_count,
            ..s
        }),
        spec_begin_frame(s, input_len, output_len).1.df_index == s.df_index,
        spec_begin_frame(s, input_len, output_len).1.frame_count == s.frame_count + if spec_begin_frame(
            s,
            input_len,
            output_len,
        ).0 is Ok && spec_begin_frame(s, input_len, output_len).0->Ok_0 is Process {
            1nat
        } else {
            0nat
        },
{
}

} // verus!
