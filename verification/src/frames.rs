//! Cutting a recording into the fixed-size frames that the noise filter
//! consumes, and joining the filtered frames back together.
use vstd::prelude::*;
use crate::seqs::append_copies;

verus! {

/// The frames laid end to end.
pub open spec fn concat_frames<T>(frames: Seq<Seq<T>>) -> Seq<T>
    decreases frames.len(),
{
    if frames.len() == 0 {
        Seq::empty()
    } else {
        concat_frames(frames.drop_last()) + frames.last()
    }
}

/// The contents of a list of frames.
pub open spec fn frames_view<T>(frames: Seq<Vec<T>>) -> Seq<Seq<T>> {
    frames.map_values(|f: Vec<T>| f@)
}

/// How many padding samples complete the last frame of `n` samples cut
/// into frames of `frame_size`.
pub open spec fn padding_len(n: nat, frame_size: nat) -> nat {
    if n % frame_size == 0 {
        0
    } else {
        (frame_size - n % frame_size) as nat
    }
}

/// `count` copies of `value`.
pub open spec fn repeat<T>(value: T, count: nat) -> Seq<T> {
    Seq::new(count, |_i: int| value)
}

/// Every frame holds exactly `frame_size` samples.
pub open spec fn all_frames_sized<T>(frames: Seq<Seq<T>>, frame_size: nat) -> bool {
    forall|k: int| 0 <= k < frames.len() ==> #[trigger] frames[k].len() == frame_size
}

/// What each frame becomes: the filter's output when it has one, and the
/// unfiltered input when filtering failed.
pub open spec fn chosen_frames<T>(inputs: Seq<Seq<T>>, outputs: Seq<Option<Seq<T>>>) -> Seq<Seq<T>> {
    Seq::new(
        inputs.len(),
        |k: int|
            match outputs[k] {
                Some(o) => o,
                None => inputs[k],
            },
    )
}

/// Contents of a list of optional frames.
pub open spec fn outputs_view<T>(outputs: Seq<Option<Vec<T>>>) -> Seq<Option<Seq<T>>> {
    outputs.map_values(
        |o: Option<Vec<T>>|
            match o {
                Some(v) => Some(v@),
                None => None,
            },
    )
}

/// A joined recording is as long as its frames added up: the number of
/// frames times the frame size.
pub proof fn law_frames_length<T>(frames: Seq<Seq<T>>, frame_size: nat)
    requires
        all_frames_sized(frames, frame_size),
    ensures
        concat_frames(frames).len() == frames.len() * frame_size,
    decreases frames.len(),
{
    if frames.len() > 0 {
        let init = frames.drop_last();
        assert(all_frames_sized(init, frame_size)) by {
            assert forall|k: int| 0 <= k < init.len() implies #[trigger] init[k].len() == frame_size by {
                assert(init[k] == frames[k]);
            }
        }
        law_frames_length(init, frame_size);
        assert(frames.len() * frame_size == init.len() * frame_size + frame_size) by (nonlinear_arith)
            requires
                frames.len() == init.len() + 1,
        ;
    }
}

/// Cuts `samples` into consecutive frames of `frame_size` samples; the last
/// frame is completed with `pad` when the samples do not fill it.
pub fn split_into_frames<T: Copy>(samples: &[T], frame_size: usize, pad: T) -> (frames: Vec<Vec<T>>)
    requires
        frame_size > 0,
    ensures
        all_frames_sized(frames_view(frames@), frame_size as nat),
        concat_frames(frames_view(frames@)) == samples@ + repeat(pad, padding_len(samples@.len(), frame_size as nat)),
{
    let n = samples.len();
    let mut frames: Vec<Vec<T>> = Vec::new();
    let mut buffer: Vec<T> = Vec::with_capacity(frame_size);
    let mut i: usize = 0;
    assert(frames@.len() * frame_size == 0) by (nonlinear_arith)
        requires
            frames@.len() == 0,
    ;
    while i < n
        invariant
            n == samples@.len(),
            i <= n,
            frame_size > 0,
            buffer@.len() < frame_size,
            all_frames_sized(frames_view(frames@), frame_size as nat),
            concat_frames(frames_view(frames@)) + buffer@ == samples@.subrange(0, i as int),
            (frames@.len() * frame_size + buffer@.len()) as int == i as int,
        decreases n - i,
    {
        let ghost old_frames = frames_view(frames@);
        let ghost old_buffer = buffer@;
        buffer.push(samples[i]);
        assert(samples@.subrange(0, i + 1) == samples@.subrange(0, i as int).push(samples@[i as int]));
        if buffer.len() == frame_size {
            let full = buffer;
            frames.push(full);
            buffer = Vec::with_capacity(frame_size);
            proof {
                assert(frames_view(frames@) == old_frames.push(full@));
                assert(frames_view(frames@).drop_last() == old_frames);
                assert(all_frames_sized(frames_view(frames@), frame_size as nat)) by {
                    assert forall|k: int| 0 <= k < frames_view(frames@).len() implies #[trigger] frames_view(frames@)[k].len() == frame_size by {
                        if k < old_frames.len() {
                            assert(frames_view(frames@)[k] == old_frames[k]);
                        }
                    }
                }
                assert(buffer@ == Seq::<T>::empty());
                assert(concat_frames(frames_view(frames@)) + buffer@ == concat_frames(old_frames) + full@);
                assert((frames@.len() * frame_size) as int == (old_frames.len() * frame_size) as int + frame_size) by (nonlinear_arith)
                    requires
                        frames@.len() == old_frames.len() + 1,
                ;
            }
        } else {
            assert(frames_view(frames@) == old_frames);
        }
        i = i + 1;
    }
    assert(samples@.subrange(0, n as int) == samples@);
    let ghost rest = buffer@.len();
    if buffer.len() > 0 {
        let ghost old_frames = frames_view(frames@);
        let ghost old_buffer = buffer@;
        let ghost pad_count = (frame_size - buffer@.len()) as nat;
        while buffer.len() < frame_size
            invariant
                buffer@.len() <= frame_size,
                old_buffer.len() <= buffer@.len(),
                buffer@ == old_buffer + repeat(pad, (buffer@.len() - old_buffer.len()) as nat),
            decreases frame_size - buffer@.len(),
        {
            let ghost before = buffer@;
            buffer.push(pad);
            assert(buffer@ == old_buffer + repeat(pad, (buffer@.len() - old_buffer.len()) as nat)) by {
                assert(repeat(pad, (buffer@.len() - old_buffer.len()) as nat) == repeat(pad, (before.len() - old_buffer.len()) as nat).push(pad));
            }
        }
        let full = buffer;
        frames.push(full);
        proof {
            assert(frames_view(frames@) == old_frames.push(full@));
            assert(frames_view(frames@).drop_last() == old_frames);
            assert(all_frames_sized(frames_view(frames@), frame_size as nat)) by {
                assert forall|k: int| 0 <= k < frames_view(frames@).len() implies #[trigger] frames_view(frames@)[k].len() == frame_size by {
                    if k < old_frames.len() {
                        assert(frames_view(frames@)[k] == old_frames[k]);
                    }
                }
            }
            // The samples fill `old_frames.len()` whole frames and `rest` more.
            assert(n as int == old_frames.len() * frame_size + rest);
            assert((n as nat) % (frame_size as nat) == rest) by (nonlinear_arith)
                requires
                    n as int == old_frames.len() * frame_size + rest,
                    0 < rest < frame_size,
            ;
            assert(concat_frames(frames_view(frames@)) == samples@ + repeat(pad, padding_len(n as nat, frame_size as nat)));
        }
    } else {
        proof {
            assert(n as int == frames@.len() * frame_size);
            assert((n as nat) % (frame_size as nat) == 0) by (nonlinear_arith)
                requires
                    n as int == frames@.len() * frame_size,
                    frame_size > 0,
            ;
            assert(repeat(pad, 0) == Seq::<T>::empty());
            assert(samples@ + repeat(pad, 0) == samples@);
        }
    }
    frames
}

/// Joins the frames of a filtered recording: each frame's filter output
/// where there is one, the frame's unfiltered input where filtering failed.
pub fn join_frames<T: Copy>(inputs: &Vec<Vec<T>>, outputs: &Vec<Option<Vec<T>>>, frame_size: usize) -> (joined: Vec<T>)
    requires
        inputs@.len() == outputs@.len(),
        all_frames_sized(frames_view(inputs@), frame_size as nat),
        forall|k: int| 0 <= k < outputs@.len() && (#[trigger] outputs@[k]) is Some ==> outputs@[k]->Some_0@.len() == frame_size,
        inputs@.len() * frame_size <= usize::MAX,
    ensures
        joined@ == concat_frames(chosen_frames(frames_view(inputs@), outputs_view(outputs@))),
{
    let ghost chosen = chosen_frames(frames_view(inputs@), outputs_view(outputs@));
    let mut joined: Vec<T> = Vec::new();
    let mut k: usize = 0;
    while k < inputs.len()
        invariant
            k <= inputs@.len(),
            inputs@.len() == outputs@.len(),
            chosen == chosen_frames(frames_view(inputs@), outputs_view(outputs@)),
            all_frames_sized(frames_view(inputs@), frame_size as nat),
            forall|j: int| 0 <= j < outputs@.len() && (#[trigger] outputs@[j]) is Some ==> outputs@[j]->Some_0@.len() == frame_size,
            inputs@.len() * frame_size <= usize::MAX,
            joined@ == concat_frames(chosen.subrange(0, k as int)),
            joined@.len() == k * frame_size,
        decreases inputs@.len() - k,
    {
        assert(frames_view(inputs@)[k as int].len() == frame_size);
        assert((k + 1) * frame_size <= inputs@.len() * frame_size) by (nonlinear_arith)
            requires
                k + 1 <= inputs@.len(),
        ;
        assert(chosen.subrange(0, k + 1).drop_last() == chosen.subrange(0, k as int));
        assert((k + 1) * frame_size == k * frame_size + frame_size) by (nonlinear_arith);
        assert(outputs@[k as int] is Some ==> outputs@[k as int]->Some_0@.len() == frame_size);
        match &outputs[k] {
            Some(out) => {
                append_copies(&mut joined, out.as_slice());
            },
            None => {
                append_copies(&mut joined, inputs[k].as_slice());
            },
        }
        k = k + 1;
    }
    assert(chosen.subrange(0, inputs@.len() as int) == chosen);
    joined
}

/// When filtering fails for every frame, the joined output is the
/// recording itself, followed by the padding of its last frame.
pub proof fn law_failed_frames_pass_through<T>(frames: Seq<Seq<T>>, outputs: Seq<Option<Seq<T>>>)
    requires
        outputs.len() == frames.len(),
        forall|k: int| 0 <= k < outputs.len() ==> (#[trigger] outputs[k]) is None,
    ensures
        concat_frames(chosen_frames(frames, outputs)) == concat_frames(frames),
{
    assert(chosen_frames(frames, outputs) == frames);
}

/// Cutting into frames and joining them back keeps the recording and pads
/// it to a whole number of frames: the padding is shorter than one frame.
pub proof fn law_padding_completes_last_frame(n: nat, frame_size: nat)
    requires
        frame_size > 0,
    ensures
        padding_len(n, frame_size) < frame_size,
        (n + padding_len(n, frame_size)) % frame_size == 0,
{
    if n % frame_size != 0 {
        let r = (n % frame_size) as int;
        let q = (n / frame_size) as int;
        let f = frame_size as int;
        assert(n as int == q * f + r) by (nonlinear_arith)
            requires
                f > 0,
                q == n / frame_size,
                r == n % frame_size,
                f == frame_size,
        ;
        assert(n as int + (f - r) == (q + 1) * f) by (nonlinear_arith)
            requires
                n as int == q * f + r,
        ;
        assert(((q + 1) * f) % f == 0) by (nonlinear_arith)
            requires
                f > 0,
                q >= 0,
        ;
    }
}

} // verus!
