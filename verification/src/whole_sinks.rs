//! The workers at the end of a track, each from its first message to its end.

use crate::encode_stage::{AfterPackets, EncodeCommand, EncodePhase, EncodeReply, EncodeStage};
use crate::reports::{copy_event, crossing};
use crate::scripted::{
    after_turns, leading_adds_up, leads_to, nothing_leads_nowhere, one_turn_leads, Script, Tally,
};
use crate::staged::{Downstream, Sent};
use crate::sums::{weight, weight_from_the_front};
use crate::whole_staged::{counted_here, gain, undisturbed, WorkerScript};
use crate::workers::{
    CopyCommand, CopyReply, CopyStage, FanoutCommand, FanoutReply, FanoutStage, Msg,
};
use vstd::prelude::*;

verus! {

// Handing frames on.

/// A worker that hands frames on as they are.
#[verifier::ext_equal]
pub struct FanoutSystem<F> {
    pub v: FanoutStage,
    pub now: nat,
    pub tally: Tally,
    pub inbox: Seq<F>,
    pub frame: Option<F>,
    pub out: Seq<F>,
    pub ended: bool,
    pub command: FanoutCommand,
}

/// What comes of the call of a worker that hands frames on.
pub open spec fn fanout_call<F, E>(y: FanoutSystem<F>) -> (FanoutSystem<F>, FanoutReply<E>) {
    match y.command {
        FanoutCommand::Receive => if y.inbox.len() > 0 {
            (
                FanoutSystem { frame: Some(y.inbox[0]), inbox: y.inbox.skip(1), ..y },
                FanoutReply::Received(Msg::Data { bytes: 0 }),
            )
        } else {
            (y, FanoutReply::Received(Msg::Eof))
        },
        FanoutCommand::WriteFrame => (
            FanoutSystem { frame: None, out: y.out.push(y.frame->0), ..y },
            FanoutReply::Sent(Sent::Delivered),
        ),
        FanoutCommand::SendEof => (
            FanoutSystem { ended: true, ..y },
            FanoutReply::Sent(Sent::Delivered),
        ),
        _ => (y, FanoutReply::Sent(Sent::Delivered)),
    }
}

impl<F, E> WorkerScript<F, E> {
    pub open spec fn fanout_answered(self, y: FanoutSystem<F>, reply: FanoutReply<E>) -> FanoutSystem<
        F,
    > {
        let before = (self.shared)(y.now);
        let (v, after, command) = y.v.step_spec(before, reply);
        FanoutSystem { v, now: y.now + 1, tally: y.tally.plus(gain(before, after)), command, ..y }
    }

    /// One call and what comes of it; nothing once the worker is finished.
    pub open spec fn fanout_turn(self, y: FanoutSystem<F>) -> FanoutSystem<F> {
        if y.command is Finished {
            y
        } else {
            let (z, reply) = fanout_call(y);
            self.fanout_answered(z, reply)
        }
    }

    pub open spec fn fanout_turns(self) -> spec_fn(FanoutSystem<F>) -> FanoutSystem<F> {
        |y: FanoutSystem<F>| self.fanout_turn(y)
    }
}

proof fn frames_are_handed_on<F, E>(g: WorkerScript<F, E>, y: FanoutSystem<F>)
    requires
        undisturbed(g.shared),
        y.command is Receive,
        y.v.phase is Receiving,
    ensures
        exists|q: FanoutSystem<F>| #[trigger]
            leads_to(g.fanout_turns(), y, q) && q.command is Receive && q.v.phase is Receiving
                && q.inbox.len() == 0 && q.v.to == y.v.to && q.ended == y.ended && q.out == y.out
                + y.inbox && q.tally == y.tally.plus(
                Tally::of_written(counted_here(y.v.to, y.inbox.len())),
            ),
    decreases y.inbox.len(),
{
    if y.inbox.len() == 0 {
        nothing_leads_nowhere(g.fanout_turns(), y);
        assert(y.out + y.inbox =~= y.out);
        assert(y.tally.plus(Tally::of_written(counted_here(y.v.to, 0))) =~= y.tally);
    } else {
        let a = g.fanout_turn(y);
        one_turn_leads(g.fanout_turns(), y);
        let b = g.fanout_turn(a);
        one_turn_leads(g.fanout_turns(), a);
        leading_adds_up(g.fanout_turns(), y, a, b);
        let s1 = (g.shared)(a.now);
        assert(!s1.abort.cancelled);
        assert(b.command is Receive);
        assert(b.tally =~= y.tally.plus(Tally::of_written(counted_here(y.v.to, 1))));
        frames_are_handed_on(g, b);
        let q = choose|q: FanoutSystem<F>| #[trigger]
            leads_to(g.fanout_turns(), b, q) && q.command is Receive && q.v.phase is Receiving
                && q.inbox.len() == 0 && q.v.to == b.v.to && q.ended == b.ended && q.out == b.out
                + b.inbox && q.tally == b.tally.plus(
                Tally::of_written(counted_here(b.v.to, b.inbox.len())),
            );
        leading_adds_up(g.fanout_turns(), y, b, q);
        assert(b.out + b.inbox =~= y.out + y.inbox);
        assert(q.tally =~= y.tally.plus(
            Tally::of_written(counted_here(y.v.to, y.inbox.len())),
        ));
    }
}

/// A worker that hands frames on, before it starts.
pub open spec fn fanout_idle<F>(v: FanoutStage, frames: Seq<F>) -> FanoutSystem<F> {
    FanoutSystem {
        v,
        now: 0,
        tally: Tally::none(),
        inbox: frames,
        frame: None,
        out: Seq::empty(),
        ended: false,
        command: FanoutCommand::Receive,
    }
}

/// A worker that hands frames on and starts.
pub open spec fn fanout_start<F, E>(
    g: WorkerScript<F, E>,
    v: FanoutStage,
    frames: Seq<F>,
) -> FanoutSystem<F> {
    g.fanout_answered(fanout_idle(v, frames), FanoutReply::Start)
}

/// A worker that hands frames on, at its end: it has done so with every one, in
/// order, has told the end, and has counted nothing but frames that it handed to a
/// sink of the track's own.
pub open spec fn fanout_done<F>(to: Downstream, frames: Seq<F>, q: FanoutSystem<F>) -> bool {
    &&& q.command is Finished
    &&& q.ended
    &&& q.out == frames
    &&& q.tally == Tally::of_written(counted_here(to, frames.len()))
}

/// A worker that hands frames on runs to its end.
pub proof fn fanout_runs<F, E>(g: WorkerScript<F, E>, v: FanoutStage, frames: Seq<F>)
    requires
        undisturbed(g.shared),
    ensures
        exists|q: FanoutSystem<F>| #[trigger]
            leads_to(g.fanout_turns(), fanout_start(g, v, frames), q) && fanout_done(
                v.to,
                frames,
                q,
            ),
{
    let y = fanout_start(g, v, frames);
    let s0 = (g.shared)(0);
    assert(!s0.abort.cancelled);
    assert(y.tally =~= Tally::none());
    frames_are_handed_on(g, y);
    let a = choose|q: FanoutSystem<F>| #[trigger]
        leads_to(g.fanout_turns(), y, q) && q.command is Receive && q.v.phase is Receiving
            && q.inbox.len() == 0 && q.v.to == y.v.to && q.ended == y.ended && q.out == y.out
            + y.inbox && q.tally == y.tally.plus(
            Tally::of_written(counted_here(y.v.to, y.inbox.len())),
        );
    let b = g.fanout_turn(a);
    one_turn_leads(g.fanout_turns(), a);
    leading_adds_up(g.fanout_turns(), y, a, b);
    assert(b.command is SendEof);
    assert(b.tally =~= a.tally);
    let q = g.fanout_turn(b);
    one_turn_leads(g.fanout_turns(), b);
    leading_adds_up(g.fanout_turns(), y, b, q);
    assert(q.command is Finished);
    assert(q.out =~= frames);
    assert(q.tally =~= Tally::of_written(counted_here(v.to, frames.len())));
}

// Copying.

/// A worker that hands packets on as they are, and how many it has handed on.
#[verifier::ext_equal]
pub struct CopySystem {
    pub v: CopyStage,
    pub now: nat,
    pub tally: Tally,
    /// The bytes that it has put into the queues, less those it took out of them.
    pub queued: int,
    /// The sizes of the packets that it has still to receive.
    pub inbox: Seq<u64>,
    pub out: nat,
    pub ended: bool,
    pub command: CopyCommand,
}

/// Some packets copied, and nothing else.
pub open spec fn of_copied(n: nat) -> Tally {
    Tally { copied: n, ..Tally::none() }
}

/// What comes of a copying worker's call.
pub open spec fn copy_call<E>(y: CopySystem) -> (CopySystem, CopyReply<E>) {
    match y.command {
        CopyCommand::Receive => if y.inbox.len() > 0 {
            (
                CopySystem { inbox: y.inbox.skip(1), ..y },
                CopyReply::Received(Msg::Data { bytes: y.inbox[0] }),
            )
        } else {
            (y, CopyReply::Received(Msg::Eof))
        },
        CopyCommand::WritePacket => (
            CopySystem { out: y.out + 1, ..y },
            CopyReply::Sent(Sent::Delivered),
        ),
        CopyCommand::SendEof => (
            CopySystem { ended: true, ..y },
            CopyReply::Sent(Sent::Delivered),
        ),
        _ => (y, CopyReply::Sent(Sent::Delivered)),
    }
}

impl<F, E> WorkerScript<F, E> {
    pub open spec fn copy_answered(self, y: CopySystem, reply: CopyReply<E>) -> CopySystem {
        let before = (self.shared)(y.now);
        let (v, after, command) = y.v.step_spec(before, reply);
        CopySystem {
            v,
            now: y.now + 1,
            tally: y.tally.plus(gain(before, after)),
            queued: y.queued + crossing(copy_event(y.v, reply)),
            command,
            ..y
        }
    }

    /// One call and what comes of it; nothing once the worker is finished.
    pub open spec fn copy_turn(self, y: CopySystem) -> CopySystem {
        if y.command is Finished {
            y
        } else {
            let (z, reply) = copy_call(y);
            self.copy_answered(z, reply)
        }
    }

    pub open spec fn copy_turns(self) -> spec_fn(CopySystem) -> CopySystem {
        |y: CopySystem| self.copy_turn(y)
    }
}

proof fn packets_are_handed_on<F, E>(g: WorkerScript<F, E>, y: CopySystem)
    requires
        undisturbed(g.shared),
        y.command is Receive,
        y.v.phase is Receiving,
    ensures
        exists|q: CopySystem| #[trigger]
            leads_to(g.copy_turns(), y, q) && q.command is Receive && q.v.phase is Receiving
                && q.inbox.len() == 0 && q.ended == y.ended && q.out == y.out + y.inbox.len()
                && q.tally == y.tally.plus(of_copied(y.inbox.len())),
    decreases y.inbox.len(),
{
    if y.inbox.len() == 0 {
        nothing_leads_nowhere(g.copy_turns(), y);
        assert(y.tally.plus(of_copied(0)) =~= y.tally);
    } else {
        let a = g.copy_turn(y);
        one_turn_leads(g.copy_turns(), y);
        let b = g.copy_turn(a);
        one_turn_leads(g.copy_turns(), a);
        leading_adds_up(g.copy_turns(), y, a, b);
        let s0 = (g.shared)(y.now);
        let s1 = (g.shared)(a.now);
        assert(!s0.abort.cancelled && !s1.abort.cancelled);
        assert(b.command is Receive);
        assert(b.tally =~= y.tally.plus(of_copied(1)));
        packets_are_handed_on(g, b);
        let q = choose|q: CopySystem| #[trigger]
            leads_to(g.copy_turns(), b, q) && q.command is Receive && q.v.phase is Receiving
                && q.inbox.len() == 0 && q.ended == b.ended && q.out == b.out + b.inbox.len()
                && q.tally == b.tally.plus(of_copied(b.inbox.len()));
        leading_adds_up(g.copy_turns(), y, b, q);
        assert(q.tally =~= y.tally.plus(of_copied(y.inbox.len())));
    }
}

/// A copying worker before it starts.
pub open spec fn copy_idle(v: CopyStage, sizes: Seq<u64>) -> CopySystem {
    CopySystem {
        v,
        now: 0,
        tally: Tally::none(),
        queued: 0,
        inbox: sizes,
        out: 0,
        ended: false,
        command: CopyCommand::Receive,
    }
}

/// A copying worker that starts.
pub open spec fn copy_start<F, E>(
    g: WorkerScript<F, E>,
    v: CopyStage,
    sizes: Seq<u64>,
) -> CopySystem {
    g.copy_answered(copy_idle(v, sizes), CopyReply::Start)
}

/// What a copying worker has taken out of the queues goes with what it has still to
/// receive.
proof fn copier_takes_out<F, E>(g: WorkerScript<F, E>, y: CopySystem, n: nat)
    requires
        y.command is Receive ==> y.v.phase is Receiving,
    ensures
        ({
            let q = after_turns(g.copy_turns(), n, y);
            q.queued - weight(q.inbox) == y.queued - weight(y.inbox)
        }),
    decreases n,
{
    if n > 0 {
        let z = g.copy_turn(y);
        if y.command is Receive && y.inbox.len() > 0 {
            weight_from_the_front(y.inbox);
        }
        assert(z.command is Receive ==> z.v.phase is Receiving);
        copier_takes_out(g, z, (n - 1) as nat);
    }
}

/// A copying worker at its end: it has handed on every packet, has told the end, and
/// has counted just those, and what it took out of the queues.
pub open spec fn copy_done(sizes: Seq<u64>, q: CopySystem) -> bool {
    &&& q.command is Finished
    &&& q.ended
    &&& q.inbox.len() == 0
    &&& q.out == sizes.len()
    &&& q.queued == -weight(sizes)
    &&& q.tally == of_copied(sizes.len())
}

/// A copying worker runs to its end.
pub proof fn copier_runs<F, E>(g: WorkerScript<F, E>, v: CopyStage, sizes: Seq<u64>)
    requires
        undisturbed(g.shared),
    ensures
        exists|q: CopySystem| #[trigger]
            leads_to(g.copy_turns(), copy_start(g, v, sizes), q) && copy_done(sizes, q),
{
    let y = copy_start(g, v, sizes);
    let s0 = (g.shared)(0);
    assert(!s0.abort.cancelled);
    assert(y.tally =~= Tally::none());
    packets_are_handed_on(g, y);
    let a = choose|q: CopySystem| #[trigger]
        leads_to(g.copy_turns(), y, q) && q.command is Receive && q.v.phase is Receiving
            && q.inbox.len() == 0 && q.ended == y.ended && q.out == y.out + y.inbox.len()
            && q.tally == y.tally.plus(of_copied(y.inbox.len()));
    let b = g.copy_turn(a);
    one_turn_leads(g.copy_turns(), a);
    leading_adds_up(g.copy_turns(), y, a, b);
    assert(b.command is SendEof);
    assert(b.tally =~= a.tally);
    let q = g.copy_turn(b);
    one_turn_leads(g.copy_turns(), b);
    leading_adds_up(g.copy_turns(), y, b, q);
    assert(q.command is Finished);
    assert(q.tally =~= of_copied(sizes.len()));
    let n = choose|n: nat| #[trigger] after_turns(g.copy_turns(), n, y) == q;
    copier_takes_out(g, y, n);
    assert(q.inbox.len() == 0);
}

// Encoding.

/// An encoding worker, what it has still to receive, and how many packets it has
/// handed on.
#[verifier::ext_equal]
pub struct EncodeSystem<F, E> {
    pub v: EncodeStage,
    pub now: nat,
    pub tally: Tally,
    pub inbox: Seq<F>,
    pub frame: Option<F>,
    /// What the encoder has been given, and how many packets it has to hand out.
    pub fed: Seq<F>,
    pub coding: nat,
    pub out: nat,
    pub ended: bool,
    pub command: EncodeCommand<F, E>,
}

/// Some packets encoded, and nothing else.
pub open spec fn of_encoded(n: nat) -> Tally {
    Tally { encoded: n, ..Tally::none() }
}

/// What comes of an encoding worker's call.
pub open spec fn encode_call<F, E>(script: Script<F, E>, y: EncodeSystem<F, E>) -> (
    EncodeSystem<F, E>,
    EncodeReply<F, E>,
) {
    match y.command {
        EncodeCommand::Receive => if y.inbox.len() > 0 {
            (
                EncodeSystem { frame: Some(y.inbox[0]), inbox: y.inbox.skip(1), ..y },
                EncodeReply::Received(Msg::Data { bytes: 0 }),
            )
        } else {
            (y, EncodeReply::Received(Msg::Eof))
        },
        EncodeCommand::Materialise => (
            EncodeSystem { frame: None, ..y },
            EncodeReply::Frame(y.frame->0),
        ),
        EncodeCommand::SendFrame(f) => (
            EncodeSystem { fed: y.fed.push(f), coding: (script.coded)(y.fed, f), ..y },
            EncodeReply::Done,
        ),
        EncodeCommand::FlushEncoder => (
            EncodeSystem { coding: (script.kept)(y.fed), ..y },
            EncodeReply::Done,
        ),
        EncodeCommand::ReceivePacket => if y.coding > 0 {
            (EncodeSystem { coding: (y.coding - 1) as nat, ..y }, EncodeReply::Packet)
        } else {
            (y, EncodeReply::NoMore)
        },
        EncodeCommand::WritePacket => (
            EncodeSystem { out: y.out + 1, ..y },
            EncodeReply::Sent(Sent::Delivered),
        ),
        EncodeCommand::SendEof => (EncodeSystem { ended: true, ..y }, EncodeReply::Done),
        _ => (y, EncodeReply::Sent(Sent::Delivered)),
    }
}

impl<F, E> WorkerScript<F, E> {
    pub open spec fn encode_answered(
        self,
        y: EncodeSystem<F, E>,
        reply: EncodeReply<F, E>,
    ) -> EncodeSystem<F, E> {
        let before = (self.shared)(y.now);
        let (v, after, command) = y.v.step_spec(before, reply);
        EncodeSystem { v, now: y.now + 1, tally: y.tally.plus(gain(before, after)), command, ..y }
    }

    /// One call and what comes of it; nothing once the worker is finished.
    pub open spec fn encode_turn(self, y: EncodeSystem<F, E>) -> EncodeSystem<F, E> {
        if y.command is Finished || y.command is Failed {
            y
        } else {
            let (z, reply) = encode_call(self.script, y);
            self.encode_answered(z, reply)
        }
    }

    pub open spec fn encode_turns(self) -> spec_fn(EncodeSystem<F, E>) -> EncodeSystem<F, E> {
        |y: EncodeSystem<F, E>| self.encode_turn(y)
    }
}

/// What an encoding worker has done from one state to another.
pub open spec fn encoded_since<F, E>(
    y: EncodeSystem<F, E>,
    q: EncodeSystem<F, E>,
    packets: nat,
) -> bool {
    &&& q.coding == 0
    &&& q.ended == y.ended
    &&& q.out == y.out + packets
    &&& q.tally == y.tally.plus(of_encoded(packets))
}

proof fn encoder_hands_out<F, E>(g: WorkerScript<F, E>, y: EncodeSystem<F, E>, then: AfterPackets)
    requires
        undisturbed(g.shared),
        y.command is ReceivePacket,
        y.v.phase == (EncodePhase::ReceivingPacket { then }),
        !(then is Barrier),
    ensures
        exists|q: EncodeSystem<F, E>| #[trigger]
            leads_to(g.encode_turns(), y, q) && q.inbox == y.inbox && q.fed == y.fed
                && encoded_since(y, q, y.coding) && (if then is End {
                q.command is SendEof && q.v.phase is Ending
            } else {
                q.command is Receive && q.v.phase is Receiving
            }),
    decreases y.coding,
{
    let a = g.encode_turn(y);
    one_turn_leads(g.encode_turns(), y);
    let s0 = (g.shared)(y.now);
    assert(!s0.abort.cancelled);
    if y.coding == 0 {
        assert(a.tally =~= y.tally.plus(of_encoded(0)));
    } else {
        let b = g.encode_turn(a);
        one_turn_leads(g.encode_turns(), a);
        leading_adds_up(g.encode_turns(), y, a, b);
        let s1 = (g.shared)(a.now);
        assert(s1.counters.snapshot_spec().has_room(1));
        assert(b.command is ReceivePacket);
        assert(b.tally =~= y.tally.plus(of_encoded(1)));
        encoder_hands_out(g, b, then);
        let q = choose|q: EncodeSystem<F, E>| #[trigger]
            leads_to(g.encode_turns(), b, q) && q.inbox == b.inbox && q.fed == b.fed
                && encoded_since(b, q, b.coding) && (if then is End {
                q.command is SendEof && q.v.phase is Ending
            } else {
                q.command is Receive && q.v.phase is Receiving
            });
        leading_adds_up(g.encode_turns(), y, b, q);
        assert(q.tally =~= y.tally.plus(of_encoded(y.coding)));
    }
}

proof fn encoder_takes_its_frames<F, E>(g: WorkerScript<F, E>, y: EncodeSystem<F, E>)
    requires
        undisturbed(g.shared),
        y.command is Receive,
        y.v.phase is Receiving,
        y.coding == 0,
    ensures
        exists|q: EncodeSystem<F, E>| #[trigger]
            leads_to(g.encode_turns(), y, q) && q.command is Receive && q.v.phase is Receiving
                && q.inbox.len() == 0 && q.fed == y.fed + y.inbox && encoded_since(
                y,
                q,
                g.script.packets(y.fed, y.inbox),
            ),
    decreases y.inbox.len(),
{
    if y.inbox.len() == 0 {
        nothing_leads_nowhere(g.encode_turns(), y);
        assert(y.fed + y.inbox =~= y.fed);
        assert(y.tally.plus(of_encoded(0)) =~= y.tally);
    } else {
        let f = y.inbox[0];
        let a = g.encode_turn(y);
        one_turn_leads(g.encode_turns(), y);
        let b = g.encode_turn(a);
        one_turn_leads(g.encode_turns(), a);
        leading_adds_up(g.encode_turns(), y, a, b);
        assert(b.command == EncodeCommand::<F, E>::SendFrame(f));
        let c = g.encode_turn(b);
        one_turn_leads(g.encode_turns(), b);
        leading_adds_up(g.encode_turns(), y, b, c);
        assert(c.command is ReceivePacket);
        assert(c.tally =~= y.tally);
        encoder_hands_out(g, c, AfterPackets::Receive);
        let d = choose|q: EncodeSystem<F, E>| #[trigger]
            leads_to(g.encode_turns(), c, q) && q.inbox == c.inbox && q.fed == c.fed
                && encoded_since(c, q, c.coding) && (if AfterPackets::Receive is End {
                q.command is SendEof && q.v.phase is Ending
            } else {
                q.command is Receive && q.v.phase is Receiving
            });
        leading_adds_up(g.encode_turns(), y, c, d);
        encoder_takes_its_frames(g, d);
        let q = choose|q: EncodeSystem<F, E>| #[trigger]
            leads_to(g.encode_turns(), d, q) && q.command is Receive && q.v.phase is Receiving
                && q.inbox.len() == 0 && q.fed == d.fed + d.inbox && encoded_since(
                d,
                q,
                g.script.packets(d.fed, d.inbox),
            );
        leading_adds_up(g.encode_turns(), y, d, q);
        assert(d.fed + d.inbox =~= y.fed + y.inbox);
        assert(q.tally =~= y.tally.plus(of_encoded(g.script.packets(y.fed, y.inbox))));
    }
}

/// An encoding worker before it starts.
pub open spec fn encode_idle<F, E>(v: EncodeStage, frames: Seq<F>) -> EncodeSystem<F, E> {
    EncodeSystem {
        v,
        now: 0,
        tally: Tally::none(),
        inbox: frames,
        frame: None,
        fed: Seq::empty(),
        coding: 0,
        out: 0,
        ended: false,
        command: EncodeCommand::Receive,
    }
}

/// An encoding worker that starts.
pub open spec fn encode_start<F, E>(
    g: WorkerScript<F, E>,
    v: EncodeStage,
    frames: Seq<F>,
) -> EncodeSystem<F, E> {
    g.encode_answered(encode_idle(v, frames), EncodeReply::Start)
}

/// How many packets an encoder makes of some frames, those that it holds included.
pub open spec fn packets_of<F, E>(script: Script<F, E>, frames: Seq<F>) -> nat {
    script.packets(Seq::empty(), frames) + (script.kept)(frames)
}

/// An encoding worker at its end: it has handed on every packet that the encoder
/// makes and holds, has told the end, and has counted just those.
pub open spec fn encode_done<F, E>(
    script: Script<F, E>,
    frames: Seq<F>,
    q: EncodeSystem<F, E>,
) -> bool {
    &&& q.command is Finished
    &&& q.ended
    &&& q.out == packets_of(script, frames)
    &&& q.tally == of_encoded(packets_of(script, frames))
}

/// An encoding worker runs to its end.
pub proof fn encoder_runs<F, E>(g: WorkerScript<F, E>, v: EncodeStage, frames: Seq<F>)
    requires
        undisturbed(g.shared),
    ensures
        exists|q: EncodeSystem<F, E>| #[trigger]
            leads_to(g.encode_turns(), encode_start(g, v, frames), q) && encode_done(
                g.script,
                frames,
                q,
            ),
{
    let n = packets_of(g.script, frames);
    let y = encode_start(g, v, frames);
    let s0 = (g.shared)(0);
    assert(!s0.abort.cancelled);
    assert(y.tally =~= Tally::none());
    encoder_takes_its_frames(g, y);
    let a = choose|q: EncodeSystem<F, E>| #[trigger]
        leads_to(g.encode_turns(), y, q) && q.command is Receive && q.v.phase is Receiving
            && q.inbox.len() == 0 && q.fed == y.fed + y.inbox && encoded_since(
            y,
            q,
            g.script.packets(y.fed, y.inbox),
        );
    assert(y.fed + y.inbox =~= frames);
    let b = g.encode_turn(a);
    one_turn_leads(g.encode_turns(), a);
    leading_adds_up(g.encode_turns(), y, a, b);
    assert(b.command is FlushEncoder);
    let c = g.encode_turn(b);
    one_turn_leads(g.encode_turns(), b);
    leading_adds_up(g.encode_turns(), y, b, c);
    assert(c.command is ReceivePacket);
    assert(c.tally =~= a.tally);
    encoder_hands_out(g, c, AfterPackets::End);
    let d = choose|q: EncodeSystem<F, E>| #[trigger]
        leads_to(g.encode_turns(), c, q) && q.inbox == c.inbox && q.fed == c.fed && encoded_since(
            c,
            q,
            c.coding,
        ) && (if AfterPackets::End is End {
            q.command is SendEof && q.v.phase is Ending
        } else {
            q.command is Receive && q.v.phase is Receiving
        });
    leading_adds_up(g.encode_turns(), y, c, d);
    let q = g.encode_turn(d);
    one_turn_leads(g.encode_turns(), d);
    leading_adds_up(g.encode_turns(), y, d, q);
    assert(q.command is Finished);
    assert(q.tally =~= of_encoded(n));
}

} // verus!
