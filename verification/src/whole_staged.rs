//! The workers of one track, each from its first message to its end: what it
//! hands on, and what it adds to the counters, whatever the others do meanwhile.

use crate::decode_stage::{DecodeCommand, DecodePhase, DecodeReply, DecodeStage};
use crate::failure::Cause;
use crate::frame_stage::{FrameCommand, FrameReply, FrameWorkerView, Then};
use crate::pump::FilterEmissions;
use crate::reports::{crossing, decode_event};
use crate::scripted::{
    after_turns, leading_adds_up, leads_to, nothing_leads_nowhere, one_turn_leads, PacketScript,
    Script, Tally,
};
use crate::staged::{Downstream, Fault, Sent, Shared};
use crate::sums::{weight, weight_from_the_front};
use crate::workers::Msg;
use vstd::prelude::*;

verus! {

/// What an exchange added to the counters.
pub open spec fn gain<E>(before: Shared<E>, after: Shared<E>) -> Tally {
    Tally {
        read: (after.counters.packets_read - before.counters.packets_read) as nat,
        copied: (after.counters.packets_copied - before.counters.packets_copied) as nat,
        decoded: (after.counters.frames_decoded - before.counters.frames_decoded) as nat,
        skipped: (after.counters.packets_skipped - before.counters.packets_skipped) as nat,
        written: (after.counters.frames_written - before.counters.frames_written) as nat,
        encoded: (after.counters.packets_encoded - before.counters.packets_encoded) as nat,
    }
}

/// What the workers share, at each moment that a worker looks: anything, as long
/// as nobody stops and no counter is at the end of its range.
pub open spec fn undisturbed<E>(shared: spec_fn(nat) -> Shared<E>) -> bool {
    forall|i: nat|
        !(#[trigger] shared(i)).abort.cancelled && shared(i).counters.snapshot_spec().has_room(1)
}

// The decoder.

/// A decoding worker, what it has still to receive, and what it has handed on.
#[verifier::ext_equal]
pub struct DecodeSystem<F, E> {
    pub stage: DecodeStage,
    pub now: nat,
    pub tally: Tally,
    /// The bytes that it has put into the queues, less those it took out of them.
    pub queued: int,
    pub inbox: Seq<PacketScript<F>>,
    pub packet: PacketScript<F>,
    /// Frames that the decoder has still to hand out.
    pub pending: Seq<F>,
    pub failing: bool,
    pub out: Seq<F>,
    pub ended: bool,
    pub command: DecodeCommand<F, E>,
}

/// What a decoder does, and the workers around it.
#[verifier::reject_recursive_types(F)]
#[verifier::reject_recursive_types(E)]
pub struct WorkerScript<F, E> {
    pub script: Script<F, E>,
    pub shared: spec_fn(nat) -> Shared<E>,
}

/// How many of so many frames a worker that hands them on counts as written: all
/// where it hands them to a sink of the track's own.
pub open spec fn counted_here(to: Downstream, n: nat) -> nat {
    if to is Independent {
        n
    } else {
        0
    }
}

/// The decoder fails, without saying that it gave up.
pub open spec fn decode_fault<F, E>(script: Script<F, E>) -> Fault<E> {
    Fault { cause: Cause::Raised(script.error), cancelled: false }
}

/// What comes of a decoding worker's call.
pub open spec fn decode_call<F, E>(script: Script<F, E>, y: DecodeSystem<F, E>) -> (
    DecodeSystem<F, E>,
    DecodeReply<F, E>,
) {
    match y.command {
        DecodeCommand::Receive => if y.inbox.len() > 0 {
            (
                DecodeSystem { packet: y.inbox[0], inbox: y.inbox.skip(1), ..y },
                DecodeReply::Received(Msg::Data { bytes: y.inbox[0].bytes }),
            )
        } else {
            (y, DecodeReply::Received(Msg::Eof))
        },
        DecodeCommand::SendPacket => if y.packet.accepted {
            (
                DecodeSystem { pending: y.packet.frames, failing: y.packet.failed, ..y },
                DecodeReply::Accepted { params: y.packet.params },
            )
        } else {
            (y, DecodeReply::Fault(decode_fault(script)))
        },
        DecodeCommand::ReceiveFrame => if y.pending.len() > 0 {
            (
                DecodeSystem { pending: y.pending.skip(1), ..y },
                DecodeReply::Frame(y.pending[0]),
            )
        } else if y.failing {
            (DecodeSystem { failing: false, ..y }, DecodeReply::Fault(decode_fault(script)))
        } else {
            (y, DecodeReply::NeedMore)
        },
        DecodeCommand::WriteFrame(f) => (
            DecodeSystem { out: y.out.push(f), ..y },
            DecodeReply::Sent(Sent::Delivered),
        ),
        DecodeCommand::FlushDecoder => (
            DecodeSystem { pending: script.tail, failing: script.tail_fails, ..y },
            if script.flush_fails {
                DecodeReply::Fault(decode_fault(script))
            } else {
                DecodeReply::Done
            },
        ),
        DecodeCommand::SendEof => (DecodeSystem { ended: true, ..y }, DecodeReply::Done),
        DecodeCommand::ResetDecoder => (y, DecodeReply::Done),
        _ => (y, DecodeReply::Sent(Sent::Delivered)),
    }
}

impl<F, E> WorkerScript<F, E> {
    pub open spec fn decode_answered(
        self,
        y: DecodeSystem<F, E>,
        reply: DecodeReply<F, E>,
    ) -> DecodeSystem<F, E> {
        let before = (self.shared)(y.now);
        let (stage, after, command) = y.stage.step_spec(before, reply);
        DecodeSystem {
            stage,
            now: y.now + 1,
            tally: y.tally.plus(gain(before, after)),
            queued: y.queued + crossing(decode_event(y.stage, reply)),
            command,
            ..y
        }
    }

    /// One call and what comes of it; nothing once the worker is finished.
    pub open spec fn decode_turn(self, y: DecodeSystem<F, E>) -> DecodeSystem<F, E> {
        if y.command is Finished || y.command is Failed {
            y
        } else {
            let (z, reply) = decode_call(self.script, y);
            self.decode_answered(z, reply)
        }
    }

    pub open spec fn decode_turns(self) -> spec_fn(DecodeSystem<F, E>) -> DecodeSystem<F, E> {
        |y: DecodeSystem<F, E>| self.decode_turn(y)
    }
}

/// What decoding counts for at the worker that does it.
pub open spec fn decode_tally<F>(to: Downstream, packets: Seq<PacketScript<F>>) -> Tally
    decreases packets.len(),
{
    if packets.len() == 0 {
        Tally::none()
    } else {
        let p = packets[0];
        packet_part(to, p).plus(decode_tally(to, packets.skip(1)))
    }
}

/// What one packet counts for there.
pub open spec fn packet_part<F>(to: Downstream, p: PacketScript<F>) -> Tally {
    if !p.accepted {
        Tally { skipped: 1, ..Tally::none() }
    } else {
        Tally {
            decoded: p.frames.len(),
            written: counted_here(to, p.frames.len()),
            skipped: if p.failed && p.frames.len() == 0 {
                1
            } else {
                0
            },
            ..Tally::none()
        }
    }
}

/// The frames that come out of some packets.
pub open spec fn decoded_frames<F>(packets: Seq<PacketScript<F>>) -> Seq<F>
    decreases packets.len(),
{
    if packets.len() == 0 {
        Seq::empty()
    } else {
        packet_frames(packets[0]) + decoded_frames(packets.skip(1))
    }
}

/// The frames that come out of a packet.
pub open spec fn packet_frames<F>(p: PacketScript<F>) -> Seq<F> {
    if p.accepted {
        p.frames
    } else {
        Seq::empty()
    }
}

/// A decoding worker that takes frames from the decoder, of a packet or of the
/// tail.
pub open spec fn takes_frames(phase: DecodePhase, tail: bool, produced: bool) -> bool {
    if tail {
        phase == (DecodePhase::ReceivingTail { last: true })
    } else {
        phase == (DecodePhase::ReceivingFrame { produced })
    }
}

proof fn decoder_hands_out<F, E>(g: WorkerScript<F, E>, y: DecodeSystem<F, E>, tail: bool, produced: bool)
    requires
        undisturbed(g.shared),
        y.command is ReceiveFrame,
        takes_frames(y.stage.phase, tail, produced),
    ensures
        exists|q: DecodeSystem<F, E>| #[trigger]
            leads_to(g.decode_turns(), y, q) && q.command is ReceiveFrame && takes_frames(
                q.stage.phase,
                tail,
                produced || y.pending.len() > 0,
            ) && q.stage.to == y.stage.to && q.stage.track == y.stage.track && q.inbox == y.inbox
                && q.pending.len() == 0 && q.failing == y.failing && q.ended == y.ended && q.out
                == y.out + y.pending && q.tally == y.tally.plus(
                Tally {
                    decoded: y.pending.len(),
                    written: counted_here(y.stage.to, y.pending.len()),
                    ..Tally::none()
                },
            ),
    decreases y.pending.len(),
{
    if y.pending.len() == 0 {
        nothing_leads_nowhere(g.decode_turns(), y);
        assert(y.out + y.pending =~= y.out);
        assert(y.tally.plus(
            Tally { decoded: 0, written: counted_here(y.stage.to, 0), ..Tally::none() },
        ) =~= y.tally);
    } else {
        let a = g.decode_turn(y);
        one_turn_leads(g.decode_turns(), y);
        let s0 = (g.shared)(y.now);
        assert(!s0.abort.cancelled);
        assert(a.command is WriteFrame);
        let b = g.decode_turn(a);
        one_turn_leads(g.decode_turns(), a);
        leading_adds_up(g.decode_turns(), y, a, b);
        let s1 = (g.shared)(a.now);
        assert(!s1.abort.cancelled);
        assert(b.command is ReceiveFrame);
        let one = Tally {
            decoded: 1,
            written: counted_here(y.stage.to, 1),
            ..Tally::none()
        };
        assert(b.tally =~= y.tally.plus(one));
        decoder_hands_out(g, b, tail, true);
        let q = choose|q: DecodeSystem<F, E>| #[trigger]
            leads_to(g.decode_turns(), b, q) && q.command is ReceiveFrame && takes_frames(
                q.stage.phase,
                tail,
                true || b.pending.len() > 0,
            ) && q.stage.to == b.stage.to && q.stage.track == b.stage.track && q.inbox == b.inbox
                && q.pending.len() == 0 && q.failing == b.failing && q.ended == b.ended && q.out
                == b.out + b.pending && q.tally == b.tally.plus(
                Tally {
                    decoded: b.pending.len(),
                    written: counted_here(b.stage.to, b.pending.len()),
                    ..Tally::none()
                },
            );
        leading_adds_up(g.decode_turns(), y, b, q);
        assert(b.out + b.pending =~= y.out + y.pending);
        assert(q.tally =~= y.tally.plus(
            Tally {
                decoded: y.pending.len(),
                written: counted_here(y.stage.to, y.pending.len()),
                ..Tally::none()
            },
        ));
    }
}

/// A decoding worker about to receive the next packet.
pub open spec fn decoder_receives<F, E>(y: DecodeSystem<F, E>) -> bool {
    y.command is Receive && y.stage.phase is Receiving && y.pending.len() == 0 && !y.failing
}

/// What a decoding worker has done from one state to another.
pub open spec fn decoded_since<F, E>(
    y: DecodeSystem<F, E>,
    q: DecodeSystem<F, E>,
    frames: Seq<F>,
    tally: Tally,
) -> bool {
    &&& q.stage.to == y.stage.to
    &&& q.ended == y.ended
    &&& q.out == y.out + frames
    &&& q.tally == y.tally.plus(tally)
}

proof fn decoder_ends_a_packet<F, E>(g: WorkerScript<F, E>, y: DecodeSystem<F, E>)
    requires
        undisturbed(g.shared),
        y.command is ReceiveFrame,
        takes_frames(y.stage.phase, false, false),
    ensures
        exists|q: DecodeSystem<F, E>| #[trigger]
            leads_to(g.decode_turns(), y, q) && decoder_receives(q) && q.inbox == y.inbox
                && decoded_since(
                y,
                q,
                y.pending,
                Tally {
                    decoded: y.pending.len(),
                    written: counted_here(y.stage.to, y.pending.len()),
                    skipped: if y.failing && y.pending.len() == 0 {
                        1
                    } else {
                        0
                    },
                    ..Tally::none()
                },
            ),
{
    decoder_hands_out(g, y, false, false);
    let d = choose|q: DecodeSystem<F, E>| #[trigger]
        leads_to(g.decode_turns(), y, q) && q.command is ReceiveFrame && takes_frames(
            q.stage.phase,
            false,
            false || y.pending.len() > 0,
        ) && q.stage.to == y.stage.to && q.stage.track == y.stage.track && q.inbox == y.inbox
            && q.pending.len() == 0 && q.failing == y.failing && q.ended == y.ended && q.out
            == y.out + y.pending && q.tally == y.tally.plus(
            Tally {
                decoded: y.pending.len(),
                written: counted_here(y.stage.to, y.pending.len()),
                ..Tally::none()
            },
        );
    let q = g.decode_turn(d);
    one_turn_leads(g.decode_turns(), d);
    leading_adds_up(g.decode_turns(), y, d, q);
    let s3 = (g.shared)(d.now);
    assert(!s3.abort.cancelled);
    assert(decoder_receives(q));
    assert(q.tally =~= y.tally.plus(
        Tally {
            decoded: y.pending.len(),
            written: counted_here(y.stage.to, y.pending.len()),
            skipped: if y.failing && y.pending.len() == 0 {
                1
            } else {
                0
            },
            ..Tally::none()
        },
    ));
}

/// A packet that the decoder took leads to its frames, with a word to the sink
/// before them where there is news.
proof fn decoder_accepts<F, E>(g: WorkerScript<F, E>, y: DecodeSystem<F, E>)
    requires
        undisturbed(g.shared),
        y.command is SendPacket,
        y.stage.phase is SendingPacket,
        y.packet.accepted,
    ensures
        exists|q: DecodeSystem<F, E>| #[trigger]
            leads_to(g.decode_turns(), y, q) && q.command is ReceiveFrame && takes_frames(
                q.stage.phase,
                false,
                false,
            ) && q.inbox == y.inbox && q.pending == y.packet.frames && q.failing
                == y.packet.failed && q.stage.to == y.stage.to && q.ended == y.ended && q.out
                == y.out && q.tally == y.tally,
{
    let b = g.decode_turn(y);
    one_turn_leads(g.decode_turns(), y);
    let s1 = (g.shared)(y.now);
    assert(!s1.abort.cancelled);
    assert(b.tally =~= y.tally);
    if b.command is SendUpdate {
        let c = g.decode_turn(b);
        one_turn_leads(g.decode_turns(), b);
        leading_adds_up(g.decode_turns(), y, b, c);
        let s2 = (g.shared)(b.now);
        assert(!s2.abort.cancelled);
        assert(c.tally =~= y.tally);
        assert(c.command is ReceiveFrame);
    } else {
        assert(b.command is ReceiveFrame);
    }
}

proof fn decoder_takes_a_packet<F, E>(g: WorkerScript<F, E>, y: DecodeSystem<F, E>)
    requires
        undisturbed(g.shared),
        decoder_receives(y),
        y.inbox.len() > 0,
    ensures
        exists|q: DecodeSystem<F, E>| #[trigger]
            leads_to(g.decode_turns(), y, q) && decoder_receives(q) && q.inbox == y.inbox.skip(1)
                && decoded_since(
                y,
                q,
                packet_frames(y.inbox[0]),
                packet_part(y.stage.to, y.inbox[0]),
            ),
{
    let p = y.inbox[0];
    let a = g.decode_turn(y);
    one_turn_leads(g.decode_turns(), y);
    let s0 = (g.shared)(y.now);
    assert(!s0.abort.cancelled);
    assert(a.command is SendPacket && a.stage.phase is SendingPacket);
    assert(a.tally =~= y.tally);
    if !p.accepted {
        let b = g.decode_turn(a);
        one_turn_leads(g.decode_turns(), a);
        leading_adds_up(g.decode_turns(), y, a, b);
        let s1 = (g.shared)(a.now);
        assert(!s1.abort.cancelled);
        assert(decoder_receives(b));
        assert(y.out + Seq::<F>::empty() =~= y.out);
        assert(b.tally =~= y.tally.plus(packet_part(y.stage.to, p)));
    } else {
        decoder_accepts(g, a);
        let c = choose|q: DecodeSystem<F, E>| #[trigger]
            leads_to(g.decode_turns(), a, q) && q.command is ReceiveFrame && takes_frames(
                q.stage.phase,
                false,
                false,
            ) && q.inbox == a.inbox && q.pending == a.packet.frames && q.failing
                == a.packet.failed && q.stage.to == a.stage.to && q.ended == a.ended && q.out
                == a.out && q.tally == a.tally;
        leading_adds_up(g.decode_turns(), y, a, c);
        decoder_ends_a_packet(g, c);
        let t = Tally {
            decoded: c.pending.len(),
            written: counted_here(c.stage.to, c.pending.len()),
            skipped: if c.failing && c.pending.len() == 0 {
                1
            } else {
                0
            },
            ..Tally::none()
        };
        let q = choose|q: DecodeSystem<F, E>| #[trigger]
            leads_to(g.decode_turns(), c, q) && decoder_receives(q) && q.inbox == c.inbox
                && decoded_since(c, q, c.pending, t);
        leading_adds_up(g.decode_turns(), y, c, q);
        assert(t == packet_part(y.stage.to, p));
        assert(decoded_since(y, q, packet_frames(p), packet_part(y.stage.to, p)));
    }
}

proof fn decoder_takes_its_packets<F, E>(g: WorkerScript<F, E>, y: DecodeSystem<F, E>)
    requires
        undisturbed(g.shared),
        decoder_receives(y),
    ensures
        exists|q: DecodeSystem<F, E>| #[trigger]
            leads_to(g.decode_turns(), y, q) && decoder_receives(q) && q.stage.to == y.stage.to
                && q.inbox.len() == 0 && q.ended == y.ended && q.out == y.out + decoded_frames(
                y.inbox,
            ) && q.tally == y.tally.plus(decode_tally(y.stage.to, y.inbox)),
    decreases y.inbox.len(),
{
    if y.inbox.len() == 0 {
        nothing_leads_nowhere(g.decode_turns(), y);
        assert(y.out + Seq::<F>::empty() =~= y.out);
        assert(y.tally.plus(Tally::none()) =~= y.tally);
    } else {
        decoder_takes_a_packet(g, y);
        let p = y.inbox[0];
        let a = choose|q: DecodeSystem<F, E>| #[trigger]
            leads_to(g.decode_turns(), y, q) && decoder_receives(q) && q.inbox == y.inbox.skip(1)
                && decoded_since(y, q, packet_frames(p), packet_part(y.stage.to, p));
        decoder_takes_its_packets(g, a);
        let q = choose|q: DecodeSystem<F, E>| #[trigger]
            leads_to(g.decode_turns(), a, q) && decoder_receives(q) && q.stage.to == a.stage.to
                && q.inbox.len() == 0 && q.ended == a.ended && q.out == a.out + decoded_frames(
                a.inbox,
            ) && q.tally == a.tally.plus(decode_tally(a.stage.to, a.inbox));
        leading_adds_up(g.decode_turns(), y, a, q);
        assert(q.out =~= y.out + decoded_frames(y.inbox));
        assert(q.tally =~= y.tally.plus(decode_tally(y.stage.to, y.inbox)));
    }
}

/// A decoding worker before it starts, with everything that its source will send it.
pub open spec fn decode_idle<F, E>(stage: DecodeStage, packets: Seq<PacketScript<F>>) -> DecodeSystem<
    F,
    E,
> {
    DecodeSystem {
        stage,
        now: 0,
        tally: Tally::none(),
        queued: 0,
        inbox: packets,
        packet: packets[0],
        pending: Seq::empty(),
        failing: false,
        out: Seq::empty(),
        ended: false,
        command: DecodeCommand::Receive,
    }
}

/// A decoding worker that starts.
pub open spec fn decode_start<F, E>(
    g: WorkerScript<F, E>,
    stage: DecodeStage,
    packets: Seq<PacketScript<F>>,
) -> DecodeSystem<F, E> {
    g.decode_answered(decode_idle(stage, packets), DecodeReply::Start)
}

/// The sizes of some packets.
pub open spec fn sizes_of<F>(packets: Seq<PacketScript<F>>) -> Seq<u64> {
    Seq::new(packets.len(), |i: int| packets[i].bytes)
}

/// What a decoding worker has taken out of the queues goes with what it has still
/// to receive.
proof fn decoder_takes_out<F, E>(g: WorkerScript<F, E>, y: DecodeSystem<F, E>, n: nat)
    requires
        y.command is Receive ==> y.stage.phase is Receiving,
    ensures
        ({
            let q = after_turns(g.decode_turns(), n, y);
            q.queued - weight(sizes_of(q.inbox)) == y.queued - weight(sizes_of(y.inbox))
        }),
    decreases n,
{
    if n > 0 {
        let z = g.decode_turn(y);
        if y.command is Receive && y.inbox.len() > 0 {
            weight_from_the_front(sizes_of(y.inbox));
            assert(sizes_of(y.inbox).skip(1) =~= sizes_of(y.inbox.skip(1)));
        }
        assert(z.command is Receive ==> z.stage.phase is Receiving);
        decoder_takes_out(g, z, (n - 1) as nat);
    }
}

/// What a decoding worker counts, the frames after the last packet included.
pub open spec fn decoder_tally<F, E>(
    script: Script<F, E>,
    to: Downstream,
    packets: Seq<PacketScript<F>>,
) -> Tally {
    decode_tally(to, packets).plus(
        Tally {
            decoded: script.tail.len(),
            written: counted_here(to, script.tail.len()),
            ..Tally::none()
        },
    )
}

/// A decoding worker at its end: it has handed on every frame of every packet and of
/// the tail, in order, has told the end, and has counted just those, the packets that
/// it skipped, and what it took out of the queues.
pub open spec fn decode_done<F, E>(
    script: Script<F, E>,
    to: Downstream,
    packets: Seq<PacketScript<F>>,
    q: DecodeSystem<F, E>,
) -> bool {
    &&& q.command is Finished
    &&& q.ended
    &&& q.inbox.len() == 0
    &&& q.out == decoded_frames(packets) + script.tail
    &&& q.queued == -weight(sizes_of(packets))
    &&& q.tally == decoder_tally(script, to, packets)
}

/// A decoding worker runs to its end.
pub proof fn decoder_runs<F, E>(
    g: WorkerScript<F, E>,
    stage: DecodeStage,
    packets: Seq<PacketScript<F>>,
)
    requires
        undisturbed(g.shared),
    ensures
        exists|q: DecodeSystem<F, E>| #[trigger]
            leads_to(g.decode_turns(), decode_start(g, stage, packets), q) && decode_done(
                g.script,
                stage.to,
                packets,
                q,
            ),
{
    let y = decode_start(g, stage, packets);
    let s0 = (g.shared)(0);
    assert(!s0.abort.cancelled);
    assert(y.tally =~= Tally::none());
    assert(decoder_receives(y));
    decoder_takes_its_packets(g, y);
    let a = choose|q: DecodeSystem<F, E>| #[trigger]
        leads_to(g.decode_turns(), y, q) && decoder_receives(q) && q.stage.to == y.stage.to
            && q.inbox.len() == 0 && q.ended == y.ended && q.out == y.out + decoded_frames(
            y.inbox,
        ) && q.tally == y.tally.plus(decode_tally(y.stage.to, y.inbox));
    let b = g.decode_turn(a);
    one_turn_leads(g.decode_turns(), a);
    leading_adds_up(g.decode_turns(), y, a, b);
    let s1 = (g.shared)(a.now);
    assert(!s1.abort.cancelled);
    assert(b.command is FlushDecoder);
    assert(b.tally =~= a.tally);
    let c = g.decode_turn(b);
    one_turn_leads(g.decode_turns(), b);
    leading_adds_up(g.decode_turns(), y, b, c);
    let s2 = (g.shared)(b.now);
    assert(!s2.abort.cancelled);
    assert(c.command is ReceiveFrame);
    assert(c.tally =~= a.tally);
    decoder_hands_out(g, c, true, false);
    let d = choose|q: DecodeSystem<F, E>| #[trigger]
        leads_to(g.decode_turns(), c, q) && q.command is ReceiveFrame && takes_frames(
            q.stage.phase,
            true,
            false || c.pending.len() > 0,
        ) && q.stage.to == c.stage.to && q.stage.track == c.stage.track && q.inbox == c.inbox
            && q.pending.len() == 0 && q.failing == c.failing && q.ended == c.ended && q.out
            == c.out + c.pending && q.tally == c.tally.plus(
            Tally {
                decoded: c.pending.len(),
                written: counted_here(c.stage.to, c.pending.len()),
                ..Tally::none()
            },
        );
    leading_adds_up(g.decode_turns(), y, c, d);
    let e = g.decode_turn(d);
    one_turn_leads(g.decode_turns(), d);
    leading_adds_up(g.decode_turns(), y, d, e);
    assert(e.command is SendEof);
    assert(e.tally =~= d.tally);
    let q = g.decode_turn(e);
    one_turn_leads(g.decode_turns(), e);
    leading_adds_up(g.decode_turns(), y, e, q);
    assert(q.command is Finished);
    assert(q.tally =~= decoder_tally(g.script, stage.to, packets));
    assert(q.out =~= decoded_frames(packets) + g.script.tail);
    let n = choose|n: nat| #[trigger] after_turns(g.decode_turns(), n, y) == q;
    decoder_takes_out(g, y, n);
    assert(q.inbox.len() == 0);
    assert(weight(sizes_of(q.inbox)) == 0);
}

// A frame stage.

/// A worker that runs a frame stage, what it has still to receive, and what it has
/// handed on.
#[verifier::ext_equal]
pub struct FrameSystem<F, E> {
    pub v: FrameWorkerView<F>,
    /// Which stage of the track it runs.
    pub k: int,
    pub now: nat,
    pub tally: Tally,
    pub inbox: Seq<F>,
    pub frame: Option<F>,
    /// What the stage has been given.
    pub given: Seq<F>,
    pub out: Seq<F>,
    /// How many extra frames it has handed to the sink.
    pub extra: nat,
    pub ended: bool,
    pub command: FrameCommand<F, E>,
}

/// What comes of a stage worker's call.
pub open spec fn frame_call<F, E>(script: Script<F, E>, y: FrameSystem<F, E>) -> (
    FrameSystem<F, E>,
    FrameReply<F, E>,
) {
    match y.command {
        FrameCommand::Receive => if y.inbox.len() > 0 {
            (
                FrameSystem { frame: Some(y.inbox[0]), inbox: y.inbox.skip(1), ..y },
                FrameReply::Received(Msg::Data { bytes: 0 }),
            )
        } else {
            (y, FrameReply::Received(Msg::Eof))
        },
        FrameCommand::Materialise => (
            FrameSystem { frame: None, ..y },
            FrameReply::Frame(y.frame->0),
        ),
        FrameCommand::RunStage(f) => (
            FrameSystem { given: y.given.push(f), ..y },
            FrameReply::Emitted((script.made)(y.k, y.given, f)),
        ),
        FrameCommand::FlushStage => (y, FrameReply::Emitted((script.held)(y.k, y.given))),
        FrameCommand::WriteFrame(f) => (
            FrameSystem { out: y.out.push(f), ..y },
            FrameReply::Sent(Sent::Delivered),
        ),
        FrameCommand::WriteExtra { .. } => (
            FrameSystem { extra: y.extra + 1, ..y },
            FrameReply::Sent(Sent::Delivered),
        ),
        FrameCommand::SendEof => (FrameSystem { ended: true, ..y }, FrameReply::Done),
        _ => (y, FrameReply::Sent(Sent::Delivered)),
    }
}

impl<F, E> WorkerScript<F, E> {
    pub open spec fn frame_answered(
        self,
        y: FrameSystem<F, E>,
        reply: FrameReply<F, E>,
    ) -> FrameSystem<F, E> {
        let before = (self.shared)(y.now);
        let (v, after, command) = y.v.step(before, reply);
        FrameSystem { v, now: y.now + 1, tally: y.tally.plus(gain(before, after)), command, ..y }
    }

    /// One call and what comes of it; nothing once the worker is finished.
    pub open spec fn frame_turn(self, y: FrameSystem<F, E>) -> FrameSystem<F, E> {
        if y.command is Finished || y.command is Failed {
            y
        } else {
            let (z, reply) = frame_call(self.script, y);
            self.frame_answered(z, reply)
        }
    }

    pub open spec fn frame_turns(self) -> spec_fn(FrameSystem<F, E>) -> FrameSystem<F, E> {
        |y: FrameSystem<F, E>| self.frame_turn(y)
    }

    /// The worker hands on what the stage made.
    pub open spec fn frame_handing(
        self,
        y: FrameSystem<F, E>,
        u: FrameWorkerView<F>,
        then: Then,
    ) -> FrameSystem<F, E> {
        let (v, _, command) = u.handing((self.shared)(y.now), then);
        FrameSystem { v, now: y.now + 1, command, ..y }
    }
}

proof fn stage_writes_extras<F, E>(
    g: WorkerScript<F, E>,
    y: FrameSystem<F, E>,
    u: FrameWorkerView<F>,
    then: Then,
)
    requires
        undisturbed(g.shared),
        u.extras_base is Some,
    ensures
        exists|now: nat| #[trigger]
            leads_to(
                g.frame_turns(),
                g.frame_handing(y, u, then),
                g.frame_handing(
                    FrameSystem { now, extra: y.extra + u.extras.len(), ..y },
                    FrameWorkerView { extras: Seq::empty(), ..u },
                    then,
                ),
            ),
    decreases u.extras.len(),
{
    let a = g.frame_handing(y, u, then);
    let goal = FrameWorkerView { extras: Seq::empty(), ..u };
    if u.extras.len() == 0 {
        assert(goal =~= u);
        nothing_leads_nowhere(g.frame_turns(), a);
        let z = FrameSystem { now: y.now, extra: y.extra + u.extras.len(), ..y };
        assert(leads_to(g.frame_turns(), a, g.frame_handing(z, goal, then)));
    } else {
        let s0 = (g.shared)(y.now);
        let s1 = (g.shared)(a.now);
        assert(!s0.abort.cancelled && !s1.abort.cancelled);
        let u1 = FrameWorkerView { extras: u.extras.remove(0), ..u };
        let y1 = FrameSystem { now: a.now, extra: y.extra + 1, ..y };
        let b = g.frame_handing(y1, u1, then);
        assert(g.frame_turn(a).tally =~= y.tally);
        assert(g.frame_turn(a) == b);
        one_turn_leads(g.frame_turns(), a);
        stage_writes_extras(g, y1, u1, then);
        let now = choose|now: nat| #[trigger]
            leads_to(
                g.frame_turns(),
                g.frame_handing(y1, u1, then),
                g.frame_handing(
                    FrameSystem { now, extra: y1.extra + u1.extras.len(), ..y1 },
                    FrameWorkerView { extras: Seq::empty(), ..u1 },
                    then,
                ),
            );
        let z = FrameSystem { now, extra: y.extra + u.extras.len(), ..y };
        assert(FrameWorkerView { extras: Seq::empty(), ..u1 } == goal);
        assert(FrameSystem { now, extra: y1.extra + u1.extras.len(), ..y1 } == z);
        leading_adds_up(g.frame_turns(), a, b, g.frame_handing(z, goal, then));
    }
}

proof fn stage_writes_frames<F, E>(
    g: WorkerScript<F, E>,
    y: FrameSystem<F, E>,
    u: FrameWorkerView<F>,
    then: Then,
)
    requires
        undisturbed(g.shared),
        u.extras.len() == 0,
    ensures
        exists|now: nat| #[trigger]
            leads_to(
                g.frame_turns(),
                g.frame_handing(y, u, then),
                g.frame_handing(
                    FrameSystem {
                        now,
                        out: y.out + u.primary,
                        tally: y.tally.plus(
                            Tally::of_written(counted_here(u.to, u.primary.len())),
                        ),
                        ..y
                    },
                    FrameWorkerView { primary: Seq::empty(), ..u },
                    then,
                ),
            ),
    decreases u.primary.len(),
{
    let a = g.frame_handing(y, u, then);
    let goal = FrameWorkerView { primary: Seq::empty(), ..u };
    let n = u.primary.len();
    let t = y.tally.plus(Tally::of_written(counted_here(u.to, n)));
    if n == 0 {
        assert(goal =~= u);
        nothing_leads_nowhere(g.frame_turns(), a);
        let z = FrameSystem { now: y.now, out: y.out + u.primary, tally: t, ..y };
        assert(y.out + u.primary =~= y.out);
        assert(t =~= y.tally);
        assert(z == y);
        assert(leads_to(g.frame_turns(), a, g.frame_handing(z, goal, then)));
    } else {
        let s0 = (g.shared)(y.now);
        let s1 = (g.shared)(a.now);
        assert(!s0.abort.cancelled && !s1.abort.cancelled);
        assert(s1.counters.snapshot_spec().has_room(1));
        assert(u.extras =~= Seq::empty());
        let u1 = FrameWorkerView { primary: u.primary.remove(0), ..u };
        let one = Tally::of_written(counted_here(u.to, 1));
        let y1 = FrameSystem {
            now: a.now,
            out: y.out.push(u.primary[0]),
            tally: y.tally.plus(one),
            ..y
        };
        let b = g.frame_handing(y1, u1, then);
        assert(g.frame_turn(a).tally =~= y1.tally);
        assert(g.frame_turn(a).v =~= b.v);
        assert(g.frame_turn(a) == b);
        one_turn_leads(g.frame_turns(), a);
        stage_writes_frames(g, y1, u1, then);
        let now = choose|now: nat| #[trigger]
            leads_to(
                g.frame_turns(),
                g.frame_handing(y1, u1, then),
                g.frame_handing(
                    FrameSystem {
                        now,
                        out: y1.out + u1.primary,
                        tally: y1.tally.plus(
                            Tally::of_written(counted_here(u1.to, u1.primary.len())),
                        ),
                        ..y1
                    },
                    FrameWorkerView { primary: Seq::empty(), ..u1 },
                    then,
                ),
            );
        let z = FrameSystem { now, out: y.out + u.primary, tally: t, ..y };
        assert(y1.out + u1.primary =~= y.out + u.primary);
        let t1 = y1.tally.plus(
            Tally::of_written(counted_here(u1.to, u1.primary.len())),
        );
        assert(t1 =~= t);
        assert(FrameWorkerView { primary: Seq::empty(), ..u1 } == goal);
        assert(FrameSystem { now, out: y1.out + u1.primary, tally: t1, ..y1 } == z);
        leading_adds_up(g.frame_turns(), a, b, g.frame_handing(z, goal, then));
    }
}

/// Where extra frames have no place, there are none.
pub open spec fn has_place<F>(base: Option<u32>, out: FilterEmissions<F>) -> bool {
    base is None ==> out.extras@.len() == 0
}

/// Whatever the stage made is handed on: the extra frames, then the others.
proof fn stage_hands_on<F, E>(
    g: WorkerScript<F, E>,
    y: FrameSystem<F, E>,
    u: FrameWorkerView<F>,
    then: Then,
)
    requires
        undisturbed(g.shared),
        u.extras_base is None ==> u.extras.len() == 0,
    ensures
        exists|now: nat| #[trigger]
            leads_to(
                g.frame_turns(),
                g.frame_handing(y, u, then),
                g.frame_handing(
                    FrameSystem {
                        now,
                        extra: y.extra + u.extras.len(),
                        out: y.out + u.primary,
                        tally: y.tally.plus(
                            Tally::of_written(counted_here(u.to, u.primary.len())),
                        ),
                        ..y
                    },
                    FrameWorkerView { extras: Seq::empty(), primary: Seq::empty(), ..u },
                    then,
                ),
            ),
{
    let a = g.frame_handing(y, u, then);
    let u1 = FrameWorkerView { extras: Seq::empty(), ..u };
    let n = u.extras.len();
    let goal = FrameWorkerView { extras: Seq::empty(), primary: Seq::empty(), ..u };
    let t = y.tally.plus(
        Tally::of_written(counted_here(u.to, u.primary.len())),
    );
    if n == 0 {
        assert(u1 =~= u);
        nothing_leads_nowhere(g.frame_turns(), a);
        let z = FrameSystem { now: y.now, extra: y.extra + n, ..y };
        assert(leads_to(g.frame_turns(), a, g.frame_handing(z, u1, then)));
    } else {
        stage_writes_extras(g, y, u, then);
    }
    let now = choose|now: nat| #[trigger]
        leads_to(
            g.frame_turns(),
            a,
            g.frame_handing(FrameSystem { now, extra: y.extra + n, ..y }, u1, then),
        );
    let y1 = FrameSystem { now, extra: y.extra + n, ..y };
    let b = g.frame_handing(y1, u1, then);
    stage_writes_frames(g, y1, u1, then);
    let later = choose|later: nat| #[trigger]
        leads_to(
            g.frame_turns(),
            b,
            g.frame_handing(
                FrameSystem { now: later, out: y1.out + u1.primary, tally: t, ..y1 },
                FrameWorkerView { primary: Seq::empty(), ..u1 },
                then,
            ),
        );
    let z = FrameSystem {
        now: later,
        extra: y.extra + n,
        out: y.out + u.primary,
        tally: t,
        ..y
    };
    assert(FrameSystem { now: later, out: y1.out + u1.primary, tally: t, ..y1 } == z);
    assert(FrameWorkerView { primary: Seq::empty(), ..u1 } == goal);
    leading_adds_up(g.frame_turns(), a, b, g.frame_handing(z, goal, then));
}

/// A stage worker about to receive the next frame.
pub open spec fn stage_receives<F, E>(y: FrameSystem<F, E>, base: Option<u32>, to: Downstream) -> bool {
    &&& y.command is Receive
    &&& y.v.phase is Receiving
    &&& y.v.extras_base == base
    &&& y.v.to == to
}

/// What a stage worker has done from one state to another.
pub open spec fn staged_since<F, E>(
    y: FrameSystem<F, E>,
    q: FrameSystem<F, E>,
    frames: Seq<F>,
    extra: nat,
) -> bool {
    &&& q.k == y.k
    &&& q.ended == y.ended
    &&& q.out == y.out + frames
    &&& q.extra == y.extra + extra
    &&& q.tally == y.tally.plus(
        Tally::of_written(counted_here(y.v.to, frames.len())),
    )
}

/// The stage never makes an extra frame that has no place.
pub open spec fn extras_have_places<F, E>(script: Script<F, E>, k: int, base: Option<u32>) -> bool {
    &&& forall|given: Seq<F>, f: F| has_place(base, #[trigger] (script.made)(k, given, f))
    &&& forall|given: Seq<F>| has_place(base, #[trigger] (script.held)(k, given))
}

proof fn stage_runs_a_frame<F, E>(
    g: WorkerScript<F, E>,
    y: FrameSystem<F, E>,
    base: Option<u32>,
    to: Downstream,
)
    requires
        undisturbed(g.shared),
        stage_receives(y, base, to),
        extras_have_places(g.script, y.k, base),
        y.inbox.len() > 0,
    ensures
        exists|q: FrameSystem<F, E>| #[trigger]
            leads_to(g.frame_turns(), y, q) && stage_receives(q, base, to) && q.inbox
                == y.inbox.skip(1) && q.given == y.given.push(y.inbox[0]) && staged_since(
                y,
                q,
                (g.script.made)(y.k, y.given, y.inbox[0]).primary@,
                (g.script.made)(y.k, y.given, y.inbox[0]).extras@.len(),
            ),
{
    let f = y.inbox[0];
    let o = (g.script.made)(y.k, y.given, f);
    assert(has_place(base, o));
    let a = g.frame_turn(y);
    one_turn_leads(g.frame_turns(), y);
    let b = g.frame_turn(a);
    one_turn_leads(g.frame_turns(), a);
    leading_adds_up(g.frame_turns(), y, a, b);
    assert(b.command == FrameCommand::<F, E>::RunStage(f));
    assert(b.tally =~= y.tally);
    let c = g.frame_turn(b);
    one_turn_leads(g.frame_turns(), b);
    leading_adds_up(g.frame_turns(), y, b, c);
    let u = FrameWorkerView { extras: o.extras@, primary: o.primary@, ..b.v };
    let y1 = FrameSystem { given: b.given.push(f), ..b };
    let s2 = (g.shared)(b.now);
    assert(!s2.abort.cancelled);
    assert(u.handing(s2, Then::Receive).1 == s2);
    assert(c.tally =~= y.tally);
    assert(c == g.frame_handing(y1, u, Then::Receive));
    stage_hands_on(g, y1, u, Then::Receive);
    let t = y1.tally.plus(
        Tally::of_written(counted_here(u.to, u.primary.len())),
    );
    let now = choose|now: nat| #[trigger]
        leads_to(
            g.frame_turns(),
            c,
            g.frame_handing(
                FrameSystem {
                    now,
                    extra: y1.extra + u.extras.len(),
                    out: y1.out + u.primary,
                    tally: t,
                    ..y1
                },
                FrameWorkerView { extras: Seq::empty(), primary: Seq::empty(), ..u },
                Then::Receive,
            ),
        );
    let z = FrameSystem {
        now,
        extra: y1.extra + u.extras.len(),
        out: y1.out + u.primary,
        tally: t,
        ..y1
    };
    let q = g.frame_handing(
        z,
        FrameWorkerView { extras: Seq::empty(), primary: Seq::empty(), ..u },
        Then::Receive,
    );
    let s3 = (g.shared)(now);
    assert(!s3.abort.cancelled);
    leading_adds_up(g.frame_turns(), y, c, q);
    assert(stage_receives(q, base, to));
}

proof fn stage_runs_its_frames<F, E>(
    g: WorkerScript<F, E>,
    y: FrameSystem<F, E>,
    base: Option<u32>,
    to: Downstream,
)
    requires
        undisturbed(g.shared),
        stage_receives(y, base, to),
        extras_have_places(g.script, y.k, base),
    ensures
        exists|q: FrameSystem<F, E>| #[trigger]
            leads_to(g.frame_turns(), y, q) && stage_receives(q, base, to) && q.inbox.len() == 0
                && q.given == y.given + y.inbox && staged_since(
                y,
                q,
                g.script.outs(y.k, y.given, y.inbox),
                g.script.extras(y.k, y.given, y.inbox),
            ),
    decreases y.inbox.len(),
{
    if y.inbox.len() == 0 {
        nothing_leads_nowhere(g.frame_turns(), y);
        assert(y.given + y.inbox =~= y.given);
        assert(y.out + Seq::<F>::empty() =~= y.out);
        assert(staged_since(y, y, Seq::empty(), 0)) by {
            assert(y.tally.plus(
                Tally::of_written(counted_here(y.v.to, 0)),
            ) =~= y.tally);
        }
    } else {
        let f = y.inbox[0];
        let o = (g.script.made)(y.k, y.given, f);
        stage_runs_a_frame(g, y, base, to);
        let a = choose|q: FrameSystem<F, E>| #[trigger]
            leads_to(g.frame_turns(), y, q) && stage_receives(q, base, to) && q.inbox
                == y.inbox.skip(1) && q.given == y.given.push(y.inbox[0]) && staged_since(
                y,
                q,
                o.primary@,
                o.extras@.len(),
            );
        stage_runs_its_frames(g, a, base, to);
        let out = g.script.outs(a.k, a.given, a.inbox);
        let extra = g.script.extras(a.k, a.given, a.inbox);
        let q = choose|q: FrameSystem<F, E>| #[trigger]
            leads_to(g.frame_turns(), a, q) && stage_receives(q, base, to) && q.inbox.len() == 0
                && q.given == a.given + a.inbox && staged_since(a, q, out, extra);
        leading_adds_up(g.frame_turns(), y, a, q);
        assert(a.given + a.inbox =~= y.given + y.inbox);
        assert(q.out =~= y.out + g.script.outs(y.k, y.given, y.inbox));
        assert(q.tally =~= y.tally.plus(
            Tally::of_written(counted_here(y.v.to, g.script.outs(y.k, y.given, y.inbox).len())),
        ));
    }
}

/// A stage worker before it starts, with everything that will be sent to it.
pub open spec fn frame_idle<F, E>(v: FrameWorkerView<F>, k: int, frames: Seq<F>) -> FrameSystem<
    F,
    E,
> {
    FrameSystem {
        v,
        k,
        now: 0,
        tally: Tally::none(),
        inbox: frames,
        frame: None,
        given: Seq::empty(),
        out: Seq::empty(),
        extra: 0,
        ended: false,
        command: FrameCommand::Receive,
    }
}

/// A stage worker that starts.
pub open spec fn frame_start<F, E>(
    g: WorkerScript<F, E>,
    v: FrameWorkerView<F>,
    k: int,
    frames: Seq<F>,
) -> FrameSystem<F, E> {
    g.frame_answered(frame_idle(v, k, frames), FrameReply::Start)
}

/// What a stage makes of all of its frames, what it still holds included.
pub open spec fn stage_out<F, E>(script: Script<F, E>, k: int, frames: Seq<F>) -> Seq<F> {
    script.outs(k, Seq::empty(), frames) + (script.held)(k, frames).primary@
}

/// How many extra frames it makes.
pub open spec fn stage_extra<F, E>(script: Script<F, E>, k: int, frames: Seq<F>) -> nat {
    script.extras(k, Seq::empty(), frames) + (script.held)(k, frames).extras@.len()
}

/// A worker that runs a frame stage at its end: it has handed on everything that the
/// stage makes and holds, in order, and the extra frames to the sink; it has told the
/// end, and has counted nothing but frames that it handed to a sink of the track's
/// own.
pub open spec fn frame_done<F, E>(
    script: Script<F, E>,
    to: Downstream,
    k: int,
    frames: Seq<F>,
    q: FrameSystem<F, E>,
) -> bool {
    &&& q.command is Finished
    &&& q.ended
    &&& q.out == stage_out(script, k, frames)
    &&& q.extra == stage_extra(script, k, frames)
    &&& q.tally == Tally::of_written(counted_here(to, stage_out(script, k, frames).len()))
}

/// A worker that runs a frame stage runs to its end.
pub proof fn stage_runs<F, E>(
    g: WorkerScript<F, E>,
    v: FrameWorkerView<F>,
    k: int,
    frames: Seq<F>,
)
    requires
        undisturbed(g.shared),
        extras_have_places(g.script, k, v.extras_base),
    ensures
        exists|q: FrameSystem<F, E>| #[trigger]
            leads_to(g.frame_turns(), frame_start(g, v, k, frames), q) && frame_done(
                g.script,
                v.to,
                k,
                frames,
                q,
            ),
{
    let base = v.extras_base;
    let y = frame_start(g, v, k, frames);
    let s0 = (g.shared)(0);
    assert(!s0.abort.cancelled);
    assert(y.tally =~= Tally::none());
    assert(stage_receives(y, base, v.to));
    stage_runs_its_frames(g, y, base, v.to);
    let a = choose|q: FrameSystem<F, E>| #[trigger]
        leads_to(g.frame_turns(), y, q) && stage_receives(q, base, v.to) && q.inbox.len() == 0
            && q.given == y.given + y.inbox && staged_since(
            y,
            q,
            g.script.outs(y.k, y.given, y.inbox),
            g.script.extras(y.k, y.given, y.inbox),
        );
    assert(y.given + y.inbox =~= frames);
    let b = g.frame_turn(a);
    one_turn_leads(g.frame_turns(), a);
    leading_adds_up(g.frame_turns(), y, a, b);
    assert(b.command is FlushStage);
    assert(b.tally =~= a.tally);
    let o = (g.script.held)(k, frames);
    assert(has_place(base, o));
    let c = g.frame_turn(b);
    one_turn_leads(g.frame_turns(), b);
    leading_adds_up(g.frame_turns(), y, b, c);
    let u = FrameWorkerView { extras: o.extras@, primary: o.primary@, ..b.v };
    let s2 = (g.shared)(b.now);
    assert(!s2.abort.cancelled);
    assert(u.handing(s2, Then::End).1 == s2);
    assert(c.tally =~= a.tally);
    assert(c == g.frame_handing(b, u, Then::End));
    stage_hands_on(g, b, u, Then::End);
    let t = b.tally.plus(Tally::of_written(counted_here(u.to, u.primary.len())));
    let now = choose|now: nat| #[trigger]
        leads_to(
            g.frame_turns(),
            c,
            g.frame_handing(
                FrameSystem {
                    now,
                    extra: b.extra + u.extras.len(),
                    out: b.out + u.primary,
                    tally: t,
                    ..b
                },
                FrameWorkerView { extras: Seq::empty(), primary: Seq::empty(), ..u },
                Then::End,
            ),
        );
    let d = g.frame_handing(
        FrameSystem {
            now,
            extra: b.extra + u.extras.len(),
            out: b.out + u.primary,
            tally: t,
            ..b
        },
        FrameWorkerView { extras: Seq::empty(), primary: Seq::empty(), ..u },
        Then::End,
    );
    leading_adds_up(g.frame_turns(), y, c, d);
    assert(d.command is SendEof);
    let q = g.frame_turn(d);
    one_turn_leads(g.frame_turns(), d);
    leading_adds_up(g.frame_turns(), y, d, q);
    assert(q.command is Finished);
    assert(q.out =~= stage_out(g.script, k, frames));
    assert(q.tally =~= Tally::of_written(counted_here(v.to, stage_out(g.script, k, frames).len())));
}

} // verus!
