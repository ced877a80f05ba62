//! Playback state: which samples the output device receives next.
use vstd::prelude::*;
use crate::frames::repeat;

verus! {

/// What one output buffer turned out to be.
#[derive(PartialEq, Eq, Structural, Clone, Copy, Debug)]
pub enum RenderOutcome {
    /// Playback is not running; the buffer is silence.
    Idle,
    /// Every sample had already been played; the buffer is silence and
    /// playback has now finished.
    Finished,
    /// The buffer starts with this many samples of the recording.
    Played(usize),
}

/// Abstract state of a player.
pub struct PlayerView<T> {
    pub samples: Seq<T>,
    pub playing: bool,
    pub finished: bool,
    pub position: nat,
}

/// A loaded recording and how far it has been played. The output device
/// asks for each buffer through `render`.
pub struct AudioPlayer<T> {
    samples: Vec<T>,
    is_playing: bool,
    is_finished: bool,
    position: usize,
}

impl<T> AudioPlayer<T> {
    /// The play position never passes the end of the recording.
    #[verifier::type_invariant]
    spec fn position_in_range(&self) -> bool {
        self.position <= self.samples.len()
    }
}

impl<T> View for AudioPlayer<T> {
    type V = PlayerView<T>;

    closed spec fn view(&self) -> PlayerView<T> {
        PlayerView {
            samples: self.samples@,
            playing: self.is_playing,
            finished: self.is_finished,
            position: self.position as nat,
        }
    }
}

/// The play position never passes the end of the recording.
pub open spec fn player_wf<T>(p: PlayerView<T>) -> bool {
    &&& p.position <= p.samples.len()
    &&& p.samples.len() <= usize::MAX
}

/// How many samples a buffer of `out_len` takes from position `position`.
pub open spec fn take_count<T>(p: PlayerView<T>, out_len: nat) -> nat {
    let left = (p.samples.len() - p.position) as nat;
    if out_len < left {
        out_len
    } else {
        left
    }
}

/// One output buffer of `out_len` samples: the buffer, what it was, and the
/// state afterwards.
pub open spec fn spec_render<T>(p: PlayerView<T>, out_len: nat, silence: T) -> (Seq<T>, RenderOutcome, PlayerView<T>) {
    if !p.playing {
        (repeat(silence, out_len), RenderOutcome::Idle, p)
    } else if p.position >= p.samples.len() {
        (repeat(silence, out_len), RenderOutcome::Finished, PlayerView { playing: false, finished: true, ..p })
    } else {
        let n = take_count(p, out_len);
        (
            p.samples.subrange(p.position as int, (p.position + n) as int) + repeat(silence, (out_len - n) as nat),
            RenderOutcome::Played(n as usize),
            PlayerView { position: p.position + n, ..p },
        )
    }
}

impl<T: Copy> AudioPlayer<T> {
    /// A player for `samples`, stopped and not finished, at the start.
    pub fn new(samples: Vec<T>) -> (p: Self)
        ensures
            p@ == (PlayerView { samples: samples@, playing: false, finished: false, position: 0 }),
            player_wf(p@),
    {
        let _len = samples.len();
        AudioPlayer { samples, is_playing: false, is_finished: false, position: 0 }
    }

    /// Starts playing from the beginning.
    pub fn start(&mut self)
        ensures
            final(self)@ == (PlayerView { playing: true, finished: false, position: 0, ..old(self)@ }),
            player_wf(final(self)@),
    {
        let _len = self.samples.len();
        self.position = 0;
        self.is_playing = true;
        self.is_finished = false;
    }

    /// Stops playing; the position is kept.
    pub fn stop(&mut self)
        ensures
            final(self)@ == (PlayerView { playing: false, ..old(self)@ }),
    {
        proof {
            use_type_invariant(&*self);
        }
        self.is_playing = false;
    }

    /// Whether playback is running.
    pub fn is_playing(&self) -> (b: bool)
        ensures
            b == self@.playing,
    {
        self.is_playing
    }

    /// Whether playback ran to the end of the recording.
    pub fn is_finished(&self) -> (b: bool)
        ensures
            b == self@.finished,
    {
        self.is_finished
    }

    /// Number of samples already handed to the device.
    pub fn position(&self) -> (pos: usize)
        ensures
            pos == self@.position,
    {
        self.position
    }

    /// Fills one output buffer: the next samples of the recording, then
    /// `silence` where there is nothing (more) to play.
    pub fn render(&mut self, out: &mut [T], silence: T) -> (outcome: RenderOutcome)
        ensures
            (final(out)@, outcome, final(self)@) == spec_render(old(self)@, old(out)@.len(), silence),
            player_wf(final(self)@),
    {
        proof {
            use_type_invariant(&*self);
        }
        let out_len = out.len();
        if !self.is_playing {
            fill_slice(out, 0, silence);
            return RenderOutcome::Idle;
        }
        let len = self.samples.len();
        if self.position >= len {
            fill_slice(out, 0, silence);
            self.is_finished = true;
            self.is_playing = false;
            return RenderOutcome::Finished;
        }
        let left = len - self.position;
        let n = if out_len < left { out_len } else { left };
        let pos = self.position;
        let mut i: usize = 0;
        while i < n
            invariant
                i <= n <= out_len,
                out@.len() == out_len,
                pos + n <= len,
                len == self.samples@.len(),
                forall|j: int| 0 <= j < i ==> out@[j] == self.samples@[pos + j],
            decreases n - i,
        {
            out[i] = self.samples[pos + i];
            i = i + 1;
        }
        fill_slice(out, n, silence);
        self.position = pos + n;
        assert(out@ == self.samples@.subrange(pos as int, (pos + n) as int) + repeat(silence, (out_len - n) as nat));
        RenderOutcome::Played(n)
    }
}

/// Sets `out[from..]` to `value`, leaving `out[..from]` as it was.
pub fn fill_slice<T: Copy>(out: &mut [T], from: usize, value: T)
    requires
        from <= old(out)@.len(),
    ensures
        final(out)@.len() == old(out)@.len(),
        forall|j: int| 0 <= j < from ==> final(out)@[j] == old(out)@[j],
        forall|j: int| from <= j < old(out)@.len() ==> final(out)@[j] == value,
{
    let mut i = from;
    while i < out.len()
        invariant
            from <= i <= out@.len(),
            out@.len() == old(out)@.len(),
            forall|j: int| 0 <= j < from ==> out@[j] == old(out)@[j],
            forall|j: int| from <= j < i ==> out@[j] == value,
        decreases out@.len() - i,
    {
        out[i] = value;
        i = i + 1;
    }
}

/// Playback hands the recording to the device in order, without skipping or
/// repeating: two consecutive buffers that both carry audio carry the
/// samples that follow one another in the recording.
pub proof fn law_consecutive_buffers<T>(p: PlayerView<T>, a: nat, b: nat, silence: T)
    requires
        player_wf(p),
        spec_render(p, a, silence).1 is Played,
        spec_render(spec_render(p, a, silence).2, b, silence).1 is Played,
    ensures
        ({
            let (o1, r1, p1) = spec_render(p, a, silence);
            let (o2, r2, p2) = spec_render(p1, b, silence);
            let n1 = r1->Played_0 as int;
            let n2 = r2->Played_0 as int;
            &&& o1.subrange(0, n1) + o2.subrange(0, n2) == p.samples.subrange(p.position as int, p.position + n1 + n2)
            &&& p2.position == p.position + n1 + n2
            &&& player_wf(p2)
        }),
{
    let (o1, r1, p1) = spec_render(p, a, silence);
    let (o2, r2, p2) = spec_render(p1, b, silence);
    let n1 = r1->Played_0 as int;
    let n2 = r2->Played_0 as int;
    assert(o1.subrange(0, n1) == p.samples.subrange(p.position as int, p.position + n1));
    assert(o2.subrange(0, n2) == p.samples.subrange(p.position + n1, p.position + n1 + n2));
    assert(o1.subrange(0, n1) + o2.subrange(0, n2) == p.samples.subrange(p.position as int, p.position + n1 + n2));
}

/// A buffer at least as long as what is left plays the rest; the next
/// buffer then finishes playback, and after that the player is idle.
pub proof fn law_playback_finishes<T>(p: PlayerView<T>, a: nat, b: nat, c: nat, silence: T)
    requires
        player_wf(p),
        p.playing,
        p.position < p.samples.len(),
        a >= p.samples.len() - p.position,
    ensures
        ({
            let p1 = spec_render(p, a, silence).2;
            let (o2, r2, p2) = spec_render(p1, b, silence);
            &&& p1.position == p.samples.len()
            &&& r2 == RenderOutcome::Finished
            &&& p2.finished && !p2.playing
            &&& o2 == repeat(silence, b)
            &&& spec_render(p2, c, silence).1 == RenderOutcome::Idle
        }),
{
}

/// The buffers of the given lengths, rendered one after another: all the
/// samples they hold, in order, and the state afterwards.
pub open spec fn render_all<T>(p: PlayerView<T>, lens: Seq<nat>, silence: T) -> (Seq<T>, PlayerView<T>)
    decreases lens.len(),
{
    if lens.len() == 0 {
        (Seq::empty(), p)
    } else {
        let (out, q) = render_all(p, lens.drop_last(), silence);
        let (o, _r, q2) = spec_render(q, lens.last(), silence);
        (out + o, q2)
    }
}

/// The total length of the buffers.
pub open spec fn total_len(lens: Seq<nat>) -> nat
    decreases lens.len(),
{
    if lens.len() == 0 {
        0
    } else {
        total_len(lens.drop_last()) + lens.last()
    }
}

/// What a run of buffers holds, sample by sample, and the state it leaves.
proof fn lemma_render_all<T>(p: PlayerView<T>, lens: Seq<nat>, silence: T)
    requires
        player_wf(p),
        p.playing,
    ensures
        ({
            let (out, q) = render_all(p, lens, silence);
            let len = p.samples.len();
            let total = total_len(lens);
            &&& q.samples == p.samples
            &&& player_wf(q)
            &&& q.position == if p.position + total < len { p.position + total } else { len }
            &&& out.len() == total
            &&& forall|j: int| 0 <= j < total ==> #[trigger] out[j] == if p.position + j < len {
                p.samples[p.position + j]
            } else {
                silence
            }
            &&& !q.playing ==> q.finished && q.position == len
            &&& lens.len() > 0 && total_len(lens.drop_last()) >= len - p.position ==> q.finished && !q.playing
        }),
    decreases lens.len(),
{
    if lens.len() > 0 {
        let init = lens.drop_last();
        lemma_render_all(p, init, silence);
        let (out0, q0) = render_all(p, init, silence);
        let (o, r, q) = spec_render(q0, lens.last(), silence);
        let out = out0 + o;
        let len = p.samples.len();
        let t0 = total_len(init);
        let l = lens.last();
        assert(render_all(p, lens, silence) == (out, q));
        assert(o.len() == l);
        assert forall|j: int| 0 <= j < t0 + l implies #[trigger] out[j] == if p.position + j < len {
            p.samples[p.position + j]
        } else {
            silence
        } by {
            if j < t0 {
                assert(out[j] == out0[j]);
            } else {
                assert(out[j] == o[j - t0]);
                if q0.playing && q0.position < len {
                    let n = take_count(q0, l);
                    assert(q0.position == p.position + t0);
                    if j - t0 < n {
                        assert(o[j - t0] == p.samples.subrange(q0.position as int, (q0.position + n) as int)[j - t0]);
                    } else {
                        assert(o[j - t0] == repeat(silence, (l - n) as nat)[j - t0 - n]);
                    }
                }
            }
        }
    }
}

/// Playback hands the recording to the device in order, without skipping or
/// repeating, over any number of buffers: together the buffers hold the
/// recording from the play position on, then silence; the position moves
/// by what was played; playback stops only by finishing, and once a buffer
/// has taken the last sample the next one finishes playback.
pub proof fn law_playback_over_buffers<T>(p: PlayerView<T>, lens: Seq<nat>, silence: T)
    requires
        player_wf(p),
        p.playing,
    ensures
        ({
            let (out, q) = render_all(p, lens, silence);
            let len = p.samples.len();
            let total = total_len(lens);
            &&& out == (p.samples + repeat(silence, total)).subrange(p.position as int, (p.position + total) as int)
            &&& q.position == if p.position + total < len { p.position + total } else { len }
            &&& q.samples == p.samples
            &&& player_wf(q)
            &&& !q.playing ==> q.finished
            &&& lens.len() > 0 && total_len(lens.drop_last()) >= len - p.position ==> q.finished && !q.playing
        }),
{
    lemma_render_all(p, lens, silence);
    let (out, q) = render_all(p, lens, silence);
    let total = total_len(lens);
    let target = (p.samples + repeat(silence, total)).subrange(p.position as int, (p.position + total) as int);
    assert forall|j: int| 0 <= j < total implies out[j] == target[j] by {
        if p.position + j < p.samples.len() {
        } else {
            assert(target[j] == repeat(silence, total)[p.position + j - p.samples.len()]);
        }
    }
    assert(out == target);
}

/// A player reports finished only once the whole recording has been
/// played: from any state where that holds (as after `new` and `start`),
/// the next buffer keeps it; a buffer that plays samples leaves the
/// finished flag as it was, and only a buffer that finds nothing left to
/// play sets it.
pub proof fn law_finished_only_at_the_end<T>(p: PlayerView<T>, out_len: nat, silence: T)
    requires
        player_wf(p),
        p.finished ==> p.position == p.samples.len(),
    ensures
        ({
            let (o, r, q) = spec_render(p, out_len, silence);
            &&& q.finished ==> q.position == q.samples.len()
            &&& r is Played ==> q.finished == p.finished && q.position <= q.samples.len()
            &&& (q.finished && !p.finished) ==> r == RenderOutcome::Finished && p.position == p.samples.len()
        }),
{
}

} // verus!
