//! The render side: how one output frame is put together from the two inputs.
//!
//! For every output frame each connected input gives up one sample per input
//! channel, whether its listen gate is open or not, so that a muted input does
//! not pile up in its transport. A closed gate and an empty transport both
//! contribute silence. The two contributions to each output sample are handed
//! out side by side; adding them and encoding the sum for the device is
//! floating-point work that the caller does.

use crate::gate::Gate;
use crate::transport::{
    drained, lemma_drained_again, lemma_popped_times, popped_times, SampleSource, SILENCE,
};
use vstd::prelude::*;

verus! {

/// The two canonical samples that are added to make one output sample.
#[derive(Debug, Clone, Copy, PartialEq, Eq, Structural)]
pub struct Addends {
    /// What input A contributes.
    pub a: u32,
    /// What input B contributes.
    pub b: u32,
}

/// The number of frames that can be written to an output device whose buffer
/// holds `buffer_frames` frames, `padding` of them still queued for playback.
pub open spec fn writable_frames(buffer_frames: u32, padding: u32) -> u32 {
    if padding >= buffer_frames {
        0
    } else {
        (buffer_frames - padding) as u32
    }
}

/// The number of frames to render in this period.
pub fn frames_to_write(buffer_frames: u32, padding: u32) -> (frames: u32)
    ensures
        frames == writable_frames(buffer_frames, padding),
{
    if padding >= buffer_frames {
        0
    } else {
        buffer_frames - padding
    }
}

/// What a popped sample contributes: itself through an open gate, silence
/// through a closed one, and silence where the transport had run dry.
pub open spec fn gated(sample: Option<u32>, gate: bool) -> u32 {
    match sample {
        Some(v) => if gate {
            v
        } else {
            SILENCE
        },
        None => SILENCE,
    }
}

/// Applies a listen gate to the answer of one pop.
pub fn gate_sample(sample: Option<u32>, gate: bool) -> (out: u32)
    ensures
        out == gated(sample, gate),
{
    match sample {
        Some(v) => if gate {
            v
        } else {
            SILENCE
        },
        None => SILENCE,
    }
}

/// The input frame of `width` samples that gated pops read from the queue `q`.
pub open spec fn pulled(q: Seq<u32>, gate: bool, width: nat) -> Seq<u32> {
    Seq::new(
        width,
        |i: int|
            gated(
                if i < q.len() {
                    Some(q[i])
                } else {
                    None
                },
                gate,
            ),
    )
}

/// A frame of `width` silent samples.
pub open spec fn silent_frame(width: nat) -> Seq<u32> {
    Seq::new(width, |i: int| SILENCE)
}

/// How many samples of an input frame of `width` samples are known before the
/// frame is read: all of them where the source is sealed or has that many
/// samples ahead, and else those that it has ahead.
pub open spec fn foreseen(ahead: Seq<u32>, sealed: bool, width: nat) -> nat {
    if sealed || width <= ahead.len() {
        width
    } else {
        ahead.len()
    }
}

/// Reads one input frame: pops one sample for each slot of `frame` and stores
/// what passes its gate. The pops happen whether that gate is open or not.
/// The samples that the source has ahead fill the first slots; what fills
/// the others is known where the source is sealed, and then it is silence.
pub fn pull_frame<S: SampleSource>(source: &mut S, gate: bool, frame: &mut Vec<u32>)
    ensures
        final(frame)@.len() == old(frame)@.len(),
        final(source).sealed() == old(source).sealed(),
        final(source).ahead() == popped_times(old(source).ahead(), old(frame)@.len()),
        final(source).ahead() == drained(old(source).ahead(), old(frame)@.len()),
        forall|i: int|
            0 <= i < foreseen(old(source).ahead(), old(source).sealed(), old(frame)@.len())
                ==> #[trigger] final(frame)@[i] == pulled(
                old(source).ahead(),
                gate,
                old(frame)@.len(),
            )[i],
        foreseen(old(source).ahead(), old(source).sealed(), old(frame)@.len()) == old(
            frame,
        )@.len() ==> final(frame)@ == pulled(old(source).ahead(), gate, old(frame)@.len()),
        !gate ==> final(frame)@ == silent_frame(old(frame)@.len()),
{
    let width: usize = frame.len();
    let ghost ahead = source.ahead();
    let ghost sealed = source.sealed();
    let mut i: usize = 0;
    while i < width
        invariant
            i <= width,
            frame@.len() == width,
            source.sealed() == sealed,
            source.ahead() == popped_times(ahead, i as nat),
            forall|j: int|
                0 <= j < i && j < foreseen(ahead, sealed, width as nat) ==> #[trigger] frame@[j]
                    == pulled(ahead, gate, width as nat)[j],
            !gate ==> forall|j: int| 0 <= j < i ==> #[trigger] frame@[j] == SILENCE,
        decreases width - i,
    {
        proof {
            lemma_popped_times(ahead, i as nat);
            lemma_popped_times(ahead, (i + 1) as nat);
        }
        let sample = source.pop();
        let value = gate_sample(sample, gate);
        frame.set(i, value);
        i += 1;
    }
    proof {
        lemma_popped_times(ahead, width as nat);
        if foreseen(ahead, sealed, width as nat) == width {
            assert(frame@ =~= pulled(ahead, gate, width as nat));
        }
        if !gate {
            assert(frame@ =~= silent_frame(width as nat));
        }
    }
}

/// Which sample of an input frame of `width` channels feeds output channel
/// `channel`: the same channel where the input has it, channel 0 where it does
/// not, and none where the input has no channels at all.
pub open spec fn source_channel(width: nat, channel: nat) -> Option<nat> {
    if width == 0 {
        None
    } else if channel < width {
        Some(channel)
    } else {
        Some(0)
    }
}

/// Which sample of an input frame feeds an output channel.
pub fn channel_source(width: usize, channel: usize) -> (index: Option<usize>)
    ensures
        match source_channel(width as nat, channel as nat) {
            Some(i) => index == Some(i as usize) && i < width,
            None => index.is_none(),
        },
{
    if width == 0 {
        None
    } else if channel < width {
        Some(channel)
    } else {
        Some(0)
    }
}

/// What an input frame contributes to output channel `channel`.
pub open spec fn contribution(frame: Seq<u32>, channel: nat) -> u32 {
    match source_channel(frame.len(), channel) {
        Some(i) => frame[i as int],
        None => SILENCE,
    }
}

/// What an input frame contributes to one output channel.
pub fn contribution_of(frame: &Vec<u32>, channel: usize) -> (sample: u32)
    ensures
        sample == contribution(frame@, channel as nat),
{
    match channel_source(frame.len(), channel) {
        Some(i) => frame[i],
        None => SILENCE,
    }
}

/// The output frame of `width` channels made from two input frames.
pub open spec fn mixed(frame_a: Seq<u32>, frame_b: Seq<u32>, width: nat) -> Seq<Addends> {
    Seq::new(
        width,
        |ch: int| Addends { a: contribution(frame_a, ch as nat), b: contribution(frame_b, ch as nat) },
    )
}

/// Lays two input frames out over the channels of `out`.
pub fn mix_frame(frame_a: &Vec<u32>, frame_b: &Vec<u32>, out: &mut Vec<Addends>)
    ensures
        final(out)@ == mixed(frame_a@, frame_b@, old(out)@.len()),
{
    let width: usize = out.len();
    let mut ch: usize = 0;
    while ch < width
        invariant
            ch <= width,
            out@.len() == width,
            forall|j: int|
                0 <= j < ch ==> out@[j] == #[trigger] mixed(frame_a@, frame_b@, width as nat)[j],
        decreases width - ch,
    {
        let a: u32 = contribution_of(frame_a, ch);
        let b: u32 = contribution_of(frame_b, ch);
        out.set(ch, Addends { a, b });
        ch += 1;
    }
    proof {
        assert(out@ =~= mixed(frame_a@, frame_b@, width as nat));
    }
}

/// Renders one output frame. Each source gives up one sample for every slot of
/// its input frame, the gates decide what of it is heard, and `out` receives
/// the two contributions to every output channel.
pub fn render_frame<A: SampleSource, B: SampleSource>(
    source_a: &mut A,
    source_b: &mut B,
    gate_a: bool,
    gate_b: bool,
    frame_a: &mut Vec<u32>,
    frame_b: &mut Vec<u32>,
    out: &mut Vec<Addends>,
)
    ensures
        final(frame_a)@.len() == old(frame_a)@.len(),
        final(frame_b)@.len() == old(frame_b)@.len(),
        final(source_a).sealed() == old(source_a).sealed(),
        final(source_b).sealed() == old(source_b).sealed(),
        final(source_a).ahead() == drained(old(source_a).ahead(), old(frame_a)@.len()),
        final(source_b).ahead() == drained(old(source_b).ahead(), old(frame_b)@.len()),
        forall|i: int|
            0 <= i < foreseen(old(source_a).ahead(), old(source_a).sealed(), old(frame_a)@.len())
                ==> #[trigger] final(frame_a)@[i] == pulled(
                old(source_a).ahead(),
                gate_a,
                old(frame_a)@.len(),
            )[i],
        forall|i: int|
            0 <= i < foreseen(old(source_b).ahead(), old(source_b).sealed(), old(frame_b)@.len())
                ==> #[trigger] final(frame_b)@[i] == pulled(
                old(source_b).ahead(),
                gate_b,
                old(frame_b)@.len(),
            )[i],
        foreseen(old(source_a).ahead(), old(source_a).sealed(), old(frame_a)@.len()) == old(
            frame_a,
        )@.len() ==> final(frame_a)@ == pulled(old(source_a).ahead(), gate_a, old(frame_a)@.len()),
        foreseen(old(source_b).ahead(), old(source_b).sealed(), old(frame_b)@.len()) == old(
            frame_b,
        )@.len() ==> final(frame_b)@ == pulled(old(source_b).ahead(), gate_b, old(frame_b)@.len()),
        !gate_a ==> final(frame_a)@ == silent_frame(old(frame_a)@.len()),
        !gate_b ==> final(frame_b)@ == silent_frame(old(frame_b)@.len()),
        final(out)@ == mixed(final(frame_a)@, final(frame_b)@, old(out)@.len()),
{
    pull_frame(source_a, gate_a, frame_a);
    pull_frame(source_b, gate_b, frame_b);
    mix_frame(frame_a, frame_b, out);
}

/// The block of output frames rendered from two queues, one frame for each
/// pair of gate readings: frame `f` is made from what `f` earlier frames left
/// in the queues.
pub open spec fn rendered(
    queue_a: Seq<u32>,
    queue_b: Seq<u32>,
    width_a: nat,
    width_b: nat,
    width_out: nat,
    gates_a: Seq<bool>,
    gates_b: Seq<bool>,
) -> Seq<Addends>
    decreases gates_a.len(),
{
    if gates_a.len() == 0 || gates_b.len() == 0 {
        Seq::<Addends>::empty()
    } else {
        let earlier = (gates_a.len() - 1) as nat;
        rendered(
            queue_a,
            queue_b,
            width_a,
            width_b,
            width_out,
            gates_a.drop_last(),
            gates_b.drop_last(),
        ) + mixed(
            pulled(drained(queue_a, earlier * width_a), gates_a.last(), width_a),
            pulled(drained(queue_b, earlier * width_b), gates_b.last(), width_b),
            width_out,
        )
    }
}

/// The working buffers of the render pipeline, allocated once when the
/// pipeline starts.
pub struct Renderer {
    /// The frame last read from input A, one sample per input channel.
    pub frame_a: Vec<u32>,
    /// The frame last read from input B, one sample per input channel.
    pub frame_b: Vec<u32>,
    /// The output frame last made, one pair per output channel.
    pub frame_out: Vec<Addends>,
    /// The block last rendered, frame after frame.
    pub block: Vec<Addends>,
}

impl Renderer {
    /// Buffers for inputs of `width_a` and `width_b` channels and an output of
    /// `width_out` channels. An input that is not connected has no channels.
    pub fn new(width_a: u16, width_b: u16, width_out: u16) -> (r: Renderer)
        ensures
            r.frame_a@ == silent_frame(width_a as nat),
            r.frame_b@ == silent_frame(width_b as nat),
            r.frame_out@ == mixed(r.frame_a@, r.frame_b@, width_out as nat),
            r.block@.len() == 0,
    {
        let mut frame_a: Vec<u32> = Vec::new();
        let mut frame_b: Vec<u32> = Vec::new();
        let mut frame_out: Vec<Addends> = Vec::new();
        let mut i: u16 = 0;
        while i < width_a
            invariant
                i <= width_a,
                frame_a@ == silent_frame(i as nat),
            decreases width_a - i,
        {
            frame_a.push(SILENCE);
            i += 1;
            assert(frame_a@ =~= silent_frame(i as nat));
        }
        i = 0;
        while i < width_b
            invariant
                i <= width_b,
                frame_b@ == silent_frame(i as nat),
            decreases width_b - i,
        {
            frame_b.push(SILENCE);
            i += 1;
            assert(frame_b@ =~= silent_frame(i as nat));
        }
        i = 0;
        while i < width_out
            invariant
                i <= width_out,
                frame_a@ == silent_frame(width_a as nat),
                frame_b@ == silent_frame(width_b as nat),
                frame_out@ == mixed(frame_a@, frame_b@, i as nat),
            decreases width_out - i,
        {
            frame_out.push(Addends { a: SILENCE, b: SILENCE });
            i += 1;
            assert(frame_out@ =~= mixed(frame_a@, frame_b@, i as nat));
        }
        Renderer { frame_a, frame_b, frame_out, block: Vec::new() }
    }

    /// Renders `frames` output frames into `self.block`. Both gates are read
    /// anew for every frame, and each source gives up one input frame per
    /// output frame whatever its gate says. Where both sources are sealed or
    /// have the samples of the whole block ahead, the block is what the
    /// readings of both gates make of those samples.
    pub fn render_block<A: SampleSource, B: SampleSource>(
        &mut self,
        source_a: &mut A,
        source_b: &mut B,
        gate_a: &Gate,
        gate_b: &Gate,
        frames: u32,
    )
        ensures
            final(self).frame_a@.len() == old(self).frame_a@.len(),
            final(self).frame_b@.len() == old(self).frame_b@.len(),
            final(self).frame_out@.len() == old(self).frame_out@.len(),
            final(self).block@.len() == frames * old(self).frame_out@.len(),
            final(source_a).sealed() == old(source_a).sealed(),
            final(source_b).sealed() == old(source_b).sealed(),
            final(source_a).ahead() == drained(
                old(source_a).ahead(),
                frames as nat * old(self).frame_a@.len(),
            ),
            final(source_b).ahead() == drained(
                old(source_b).ahead(),
                frames as nat * old(self).frame_b@.len(),
            ),
            covered(old(source_a).ahead(), old(source_a).sealed(), frames, old(self).frame_a@.len())
                && covered(
                old(source_b).ahead(),
                old(source_b).sealed(),
                frames,
                old(self).frame_b@.len(),
            ) ==> exists|gates_a: Seq<bool>, gates_b: Seq<bool>|
                gates_a.len() == frames && gates_b.len() == frames && final(self).block@
                    == rendered(
                    old(source_a).ahead(),
                    old(source_b).ahead(),
                    old(self).frame_a@.len(),
                    old(self).frame_b@.len(),
                    old(self).frame_out@.len(),
                    gates_a,
                    gates_b,
                ),
    {
        let ghost ahead_a = source_a.ahead();
        let ghost ahead_b = source_b.ahead();
        let ghost sealed_a = source_a.sealed();
        let ghost sealed_b = source_b.sealed();
        let ghost width_a = self.frame_a@.len();
        let ghost width_b = self.frame_b@.len();
        let ghost width_out = self.frame_out@.len();
        let ghost known = covered(ahead_a, sealed_a, frames, width_a) && covered(
            ahead_b,
            sealed_b,
            frames,
            width_b,
        );
        let ghost mut gates_a = Seq::<bool>::empty();
        let ghost mut gates_b = Seq::<bool>::empty();
        self.block.clear();
        let mut f: u32 = 0;
        proof {
            assert(ahead_a.skip(0) =~= ahead_a);
            assert(ahead_b.skip(0) =~= ahead_b);
        }
        while f < frames
            invariant
                f <= frames,
                self.frame_a@.len() == width_a,
                self.frame_b@.len() == width_b,
                self.frame_out@.len() == width_out,
                self.block@.len() == f * width_out,
                source_a.sealed() == sealed_a,
                source_b.sealed() == sealed_b,
                source_a.ahead() == drained(ahead_a, f as nat * width_a),
                source_b.ahead() == drained(ahead_b, f as nat * width_b),
                known == (covered(ahead_a, sealed_a, frames, width_a) && covered(
                    ahead_b,
                    sealed_b,
                    frames,
                    width_b,
                )),
                gates_a.len() == f,
                gates_b.len() == f,
                known ==> self.block@ == rendered(
                    ahead_a,
                    ahead_b,
                    width_a,
                    width_b,
                    width_out,
                    gates_a,
                    gates_b,
                ),
            decreases frames - f,
        {
            let open_a = gate_a.is_open();
            let open_b = gate_b.is_open();
            let ghost block_before = self.block@;
            proof {
                lemma_drained_again(ahead_a, f as nat * width_a, width_a);
                lemma_drained_again(ahead_b, f as nat * width_b, width_b);
                assert(f as nat * width_a + width_a == (f + 1) as nat * width_a)
                    by (nonlinear_arith);
                assert(f as nat * width_b + width_b == (f + 1) as nat * width_b)
                    by (nonlinear_arith);
                assert(f * width_out + width_out == (f + 1) * width_out) by (nonlinear_arith);
                assert((f + 1) as nat * width_a <= frames as nat * width_a) by (nonlinear_arith)
                    requires
                        f + 1 <= frames,
                ;
                assert((f + 1) as nat * width_b <= frames as nat * width_b) by (nonlinear_arith)
                    requires
                        f + 1 <= frames,
                ;
            }
            render_frame(
                source_a,
                source_b,
                open_a,
                open_b,
                &mut self.frame_a,
                &mut self.frame_b,
                &mut self.frame_out,
            );
            let ghost read_a = self.frame_a@;
            let ghost read_b = self.frame_b@;
            let ghost made = self.frame_out@;
            let width: usize = self.frame_out.len();
            let mut ch: usize = 0;
            while ch < width
                invariant
                    ch <= width,
                    width == width_out,
                    self.frame_a@ == read_a,
                    self.frame_b@ == read_b,
                    self.frame_out@ == made,
                    made.len() == width_out,
                    self.block@ == block_before + made.take(ch as int),
                decreases width - ch,
            {
                let pair = self.frame_out[ch];
                self.block.push(pair);
                ch += 1;
                assert(self.block@ =~= block_before + made.take(ch as int));
            }
            proof {
                assert(made.take(width as int) =~= made);
                let next_a = gates_a.push(open_a);
                let next_b = gates_b.push(open_b);
                assert(next_a.drop_last() =~= gates_a);
                assert(next_b.drop_last() =~= gates_b);
                if known {
                    assert(self.frame_a@ == pulled(
                        drained(ahead_a, f as nat * width_a),
                        open_a,
                        width_a,
                    ));
                    assert(self.frame_b@ == pulled(
                        drained(ahead_b, f as nat * width_b),
                        open_b,
                        width_b,
                    ));
                    assert(self.block@ == block_before + mixed(
                        self.frame_a@,
                        self.frame_b@,
                        width_out,
                    ));
                    assert(next_a.last() == open_a && next_b.last() == open_b);
                    assert(self.block@ == rendered(
                        ahead_a,
                        ahead_b,
                        width_a,
                        width_b,
                        width_out,
                        next_a,
                        next_b,
                    ));
                }
                gates_a = next_a;
                gates_b = next_b;
            }
            f += 1;
        }
    }
}

/// Whether a source has what `frames` input frames of `width` samples read
/// known beforehand: it is sealed, or it has that many samples ahead.
pub open spec fn covered(ahead: Seq<u32>, sealed: bool, frames: u32, width: nat) -> bool {
    sealed || frames as nat * width <= ahead.len()
}

/// A closed gate mutes an input without letting it pile up: the frame read
/// from the queue is silent, every output channel receives silence from it,
/// and the queue is shorter by the frame's width, or empty.
pub proof fn law_closed_gate_drains_and_mutes(
    q: Seq<u32>,
    width: nat,
    other: Seq<u32>,
    width_out: nat,
    channel: int,
)
    requires
        0 <= channel < width_out,
    ensures
        pulled(q, false, width) == silent_frame(width),
        mixed(pulled(q, false, width), other, width_out)[channel].a == SILENCE,
        popped_times(q, width) == drained(q, width),
        drained(q, width).len() == if width <= q.len() {
            q.len() - width
        } else {
            0
        },
{
    assert(pulled(q, false, width) =~= silent_frame(width));
    lemma_popped_times(q, width);
}

} // verus!
