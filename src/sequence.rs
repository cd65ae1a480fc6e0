use vstd::prelude::*;

verus! {

/// What decoding one packet gave.
#[derive(Debug, Clone, Copy, PartialEq, Eq, Structural)]
pub enum DecodeOutcome {
    /// A displayable frame came out.
    Frame,
    /// The decoder took the packet but has no displayable frame yet.
    NoFrame,
    /// The decoder reported an error.
    Failed,
}

/// What the owner of a frame sequence observed since the last step.
#[derive(Debug, Clone, Copy, PartialEq, Eq, Structural)]
pub enum Event {
    /// A packet of the stream with this index was pulled from the source.
    Packet(usize),
    /// The source has no packets left.
    Exhausted,
    /// The packet last handed to the decoder was decoded with this outcome.
    Decoded(DecodeOutcome),
}

/// What the owner of a frame sequence does next.
#[derive(Debug, Clone, Copy, PartialEq, Eq, Structural)]
pub enum Step {
    /// Hand the packet just pulled to the decoder.
    Decode,
    /// Pull the next packet from the source.
    Pull,
    /// Hand out the frame just decoded as the next item.
    Yield,
    /// Report the decode error and end the sequence.
    Abort,
    /// End the sequence.
    End,
}

/// The step taken on `event` by a sequence over stream `stream`.
pub open spec fn step_action(stream: usize, ended: bool, event: Event) -> Step {
    if ended {
        Step::End
    } else {
        match event {
            Event::Exhausted => Step::End,
            Event::Packet(index) => if index == stream {
                Step::Decode
            } else {
                Step::Pull
            },
            Event::Decoded(DecodeOutcome::Frame) => Step::Yield,
            Event::Decoded(DecodeOutcome::NoFrame) => Step::Pull,
            Event::Decoded(DecodeOutcome::Failed) => Step::Abort,
        }
    }
}

/// Whether a sequence has ended after taking `step`.
pub open spec fn ended_after(ended: bool, step: Step) -> bool {
    ended || step == Step::End || step == Step::Abort
}

/// A source seen as the packets it holds, each with its stream index and
/// what decoding it gives.
pub type SourcePackets = Seq<(usize, DecodeOutcome)>;

/// Pulling a sequence over `stream` to its end on `packets`: the packets
/// handed to the decoder, the number of frames handed out, and whether a
/// decode error ended it.
pub open spec fn drive(stream: usize, ended: bool, packets: SourcePackets) -> (
    SourcePackets,
    nat,
    bool,
)
    decreases packets.len(),
{
    if packets.len() == 0 {
        (Seq::empty(), 0, false)
    } else {
        let p = packets[0];
        let first = step_action(stream, ended, Event::Packet(p.0));
        let ended1 = ended_after(ended, first);
        if first == Step::Decode {
            let second = step_action(stream, ended1, Event::Decoded(p.1));
            let ended2 = ended_after(ended1, second);
            let rest = drive(stream, ended2, packets.drop_first());
            if second == Step::Yield {
                (seq![p] + rest.0, rest.1 + 1, rest.2)
            } else if second == Step::Pull {
                (seq![p] + rest.0, rest.1, rest.2)
            } else {
                (seq![p], 0, second == Step::Abort)
            }
        } else if first == Step::Pull {
            drive(stream, ended1, packets.drop_first())
        } else {
            (Seq::empty(), 0, false)
        }
    }
}

/// The packets of `packets` that belong to stream `stream`, in order.
pub open spec fn selected(stream: usize, packets: SourcePackets) -> SourcePackets
    decreases packets.len(),
{
    if packets.len() == 0 {
        Seq::empty()
    } else {
        let rest = selected(stream, packets.drop_first());
        if packets[0].0 == stream {
            seq![packets[0]] + rest
        } else {
            rest
        }
    }
}

/// How many packets of stream `stream` decode to a displayable frame.
pub open spec fn frame_count(stream: usize, packets: SourcePackets) -> nat
    decreases packets.len(),
{
    if packets.len() == 0 {
        0
    } else {
        let rest = frame_count(stream, packets.drop_first());
        if packets[0].0 == stream && packets[0].1 == DecodeOutcome::Frame {
            rest + 1
        } else {
            rest
        }
    }
}

/// Whether no packet of stream `stream` fails to decode.
pub open spec fn decodes_cleanly(stream: usize, packets: SourcePackets) -> bool {
    forall|i: int|
        0 <= i < packets.len() && #[trigger] packets[i].0 == stream ==> packets[i].1
            != DecodeOutcome::Failed
}

/// Only packets of the chosen stream reach the decoder, and on a source whose
/// packets of that stream all decode, every one of them reaches it, in order,
/// and the sequence hands out one frame per packet that decodes to one.
pub proof fn lemma_stream_filtering(stream: usize, packets: SourcePackets)
    ensures
        forall|i: int|
            0 <= i < drive(stream, false, packets).0.len() ==> (#[trigger] drive(
                stream,
                false,
                packets,
            ).0[i]).0 == stream,
        decodes_cleanly(stream, packets) ==> drive(stream, false, packets).0 == selected(
            stream,
            packets,
        ),
        decodes_cleanly(stream, packets) ==> drive(stream, false, packets).1 == frame_count(
            stream,
            packets,
        ),
        decodes_cleanly(stream, packets) ==> !drive(stream, false, packets).2,
    decreases packets.len(),
{
    if packets.len() > 0 {
        let tail = packets.drop_first();
        lemma_stream_filtering(stream, tail);
        if decodes_cleanly(stream, packets) {
            assert forall|i: int| 0 <= i < tail.len() && #[trigger] tail[i].0 == stream implies tail[i].1
                != DecodeOutcome::Failed by {
                assert(packets[i + 1] == tail[i]);
            }
            if packets[0].0 == stream {
                assert(packets[0].1 != DecodeOutcome::Failed);
            }
        }
        let d = drive(stream, false, packets).0;
        let dt = drive(stream, false, tail).0;
        assert forall|i: int| 0 <= i < d.len() implies (#[trigger] d[i]).0 == stream by {
            if packets[0].0 == stream && packets[0].1 != DecodeOutcome::Failed && i > 0 {
                assert(d[i] == dt[i - 1]);
            }
        }
    }
}

/// A decode error ends the sequence: when the first failing packet of the
/// chosen stream stands at `k`, the sequence hands out exactly the frames
/// decoded from the packets before it, hands the decoder nothing after it,
/// and ends with the error reported.
pub proof fn lemma_early_termination(stream: usize, packets: SourcePackets, k: int)
    requires
        0 <= k < packets.len(),
        packets[k].0 == stream,
        packets[k].1 == DecodeOutcome::Failed,
        decodes_cleanly(stream, packets.take(k)),
    ensures
        drive(stream, false, packets).0 == selected(stream, packets.take(k)).push(packets[k]),
        drive(stream, false, packets).1 == frame_count(stream, packets.take(k)),
        drive(stream, false, packets).2,
    decreases k,
{
    let tail = packets.drop_first();
    if k == 0 {
        assert(packets.take(0) =~= Seq::<(usize, DecodeOutcome)>::empty());
        assert(selected(stream, packets.take(0)).push(packets[0]) =~= seq![packets[0]]);
    } else {
        assert(tail.take(k - 1) =~= packets.take(k).drop_first());
        assert forall|i: int|
            0 <= i < tail.take(k - 1).len() && #[trigger] tail.take(k - 1)[i].0
                == stream implies tail.take(k - 1)[i].1 != DecodeOutcome::Failed by {
            assert(packets.take(k)[i + 1] == tail.take(k - 1)[i]);
        }
        lemma_early_termination(stream, tail, k - 1);
        assert(packets.take(k)[0] == packets[0]);
        if packets[0].0 == stream {
            assert(packets[0].1 != DecodeOutcome::Failed);
            assert(seq![packets[0]] + selected(stream, tail.take(k - 1)).push(packets[k]) =~= (
            seq![packets[0]] + selected(stream, tail.take(k - 1))).push(packets[k]));
        }
    }
}

/// The decisions of a forward-only sequence of decoded frames drawn from one
/// chosen stream of a source. Whoever owns the source and the decoder reports
/// each [`Event`] and performs the [`Step`] that comes back.
pub struct Frames {
    stream: usize,
    ended: bool,
}

impl Frames {
    pub closed spec fn spec_stream(&self) -> usize {
        self.stream
    }

    pub closed spec fn spec_is_ended(&self) -> bool {
        self.ended
    }

    /// A fresh sequence over the stream with index `stream`.
    pub fn new(stream: usize) -> (r: Frames)
        ensures
            r.stream() == stream,
            !r.is_ended(),
    {
        Frames { stream, ended: false }
    }

    /// The index of the chosen stream; fixed for the sequence's life.
    #[verifier::when_used_as_spec(spec_stream)]
    pub fn stream(&self) -> (r: usize)
        ensures
            r == self.spec_stream(),
    {
        self.stream
    }

    /// Whether the sequence has ended; once ended, it stays so.
    #[verifier::when_used_as_spec(spec_is_ended)]
    pub fn is_ended(&self) -> (r: bool)
        ensures
            r == self.spec_is_ended(),
    {
        self.ended
    }

    /// Takes one event and says what to do next: packets of other streams
    /// are skipped, packets of the chosen stream go to the decoder, a decoded
    /// frame is handed out, a packet that gave no frame yet leads to the next
    /// pull, and an exhausted source or a decode error ends the sequence.
    pub fn step(&mut self, event: Event) -> (r: Step)
        ensures
            r == step_action(old(self).stream(), old(self).is_ended(), event),
            final(self).stream() == old(self).stream(),
            final(self).is_ended() == ended_after(old(self).is_ended(), r),
    {
        let r = if self.ended {
            Step::End
        } else {
            match event {
                Event::Exhausted => Step::End,
                Event::Packet(index) => if index == self.stream {
                    Step::Decode
                } else {
                    Step::Pull
                },
                Event::Decoded(DecodeOutcome::Frame) => Step::Yield,
                Event::Decoded(DecodeOutcome::NoFrame) => Step::Pull,
                Event::Decoded(DecodeOutcome::Failed) => Step::Abort,
            }
        };
        if r == Step::End || r == Step::Abort {
            self.ended = true;
        }
        r
    }
}

} // verus!
