//! The workers of an output at work together, in whatever order they take turns.

use crate::decode_stage::DecodeReply;
use crate::encode_stage::EncodeReply;
use crate::frame_stage::FrameReply;
use crate::mux::MuxReply;
use crate::reports::Exchange;
use crate::scripted::{
    after_turns, counts_only_grow, leads_to, on_the_way, one_more_turn, there_is_one_end, Script,
    Tally,
};
use crate::source_stage::SourceReply;
use crate::staged::Shared;
use crate::sums::{load, weight};
use crate::whole_mux::{
    frames_in_all, mux_call, mux_done, mux_idle, mux_runs, mux_start, MuxClock, MuxScript,
    MuxSystem,
};
use crate::whole_sinks::{
    copier_runs, copy_call, copy_done, copy_idle, copy_start, encode_call, encode_done,
    encode_idle, encode_start, encoder_runs, fanout_call, fanout_done, fanout_idle, fanout_runs,
    fanout_start, of_copied, of_encoded, packets_of, CopySystem, EncodeSystem, FanoutSystem,
};
use crate::whole_source::{
    roomy, roomy_from, source_call, source_done, source_idle, source_runs, source_start,
    SourceScript, SourceSystem, Supply,
};
use crate::whole_staged::{
    counted_here, decode_call, decode_done, decode_idle, decode_start, decoded_frames,
    decoder_runs, decoder_tally, extras_have_places, frame_call, frame_done, frame_idle,
    frame_start, sizes_of, stage_extra, stage_out, stage_runs, undisturbed, DecodeSystem,
    FrameSystem, WorkerScript,
};
use crate::workers::{CopyReply, FanoutReply};
use vstd::prelude::*;

verus! {

/// One worker of an output, or the loop that feeds its sink: how far it has got, and
/// what decides what comes of its calls.
#[verifier::reject_recursive_types(F)]
#[verifier::reject_recursive_types(E)]
#[allow(inconsistent_fields)]
pub enum Member<F, E> {
    Source { supply: Supply<F>, y: SourceSystem<E> },
    Copy { script: Script<F, E>, y: CopySystem },
    Decode { script: Script<F, E>, y: DecodeSystem<F, E> },
    Frame { script: Script<F, E>, y: FrameSystem<F, E> },
    Encode { script: Script<F, E>, y: EncodeSystem<F, E> },
    Fanout { script: Script<F, E>, y: FanoutSystem<F> },
    Mux { clock: MuxClock, y: MuxSystem },
}

/// A worker's script, with what it sees.
pub open spec fn seeing<F, E>(
    script: Script<F, E>,
    shared: spec_fn(nat) -> Shared<E>,
) -> WorkerScript<F, E> {
    WorkerScript { script, shared }
}

impl<F, E> Member<F, E> {
    /// How many turns it has taken.
    pub open spec fn now(self) -> nat {
        match self {
            Member::Source { y, .. } => y.now,
            Member::Copy { y, .. } => y.now,
            Member::Decode { y, .. } => y.now,
            Member::Frame { y, .. } => y.now,
            Member::Encode { y, .. } => y.now,
            Member::Fanout { y, .. } => y.now,
            Member::Mux { y, .. } => y.now,
        }
    }

    /// What it has added to the counters.
    pub open spec fn tally(self) -> Tally {
        match self {
            Member::Source { y, .. } => y.tally,
            Member::Copy { y, .. } => y.tally,
            Member::Decode { y, .. } => y.tally,
            Member::Frame { y, .. } => y.tally,
            Member::Encode { y, .. } => y.tally,
            Member::Fanout { y, .. } => y.tally,
            Member::Mux { y, .. } => y.tally,
        }
    }

    /// The bytes that it has put into the queues between source and workers, less those
    /// that it took out of them.
    pub open spec fn queued(self) -> int {
        match self {
            Member::Source { y, .. } => y.queued,
            Member::Copy { y, .. } => y.queued,
            Member::Decode { y, .. } => y.queued,
            _ => 0,
        }
    }

    /// It takes no more turns.
    pub open spec fn over(self) -> bool {
        match self {
            Member::Source { y, .. } => y.command is Finished || y.command is Failed,
            Member::Copy { y, .. } => y.command is Finished,
            Member::Decode { y, .. } => y.command is Finished || y.command is Failed,
            Member::Frame { y, .. } => y.command is Finished || y.command is Failed,
            Member::Encode { y, .. } => y.command is Finished || y.command is Failed,
            Member::Fanout { y, .. } => y.command is Finished,
            Member::Mux { y, .. } => y.command is Stop,
        }
    }

    /// It is telling the end, for the last time, and has nothing else to do.
    pub open spec fn telling(self) -> bool {
        match self {
            Member::Source { y, .. } => y.command is SendEof && y.v.phase is Eof
                && y.v.phase->Eof_route + 1 >= y.v.routes.len(),
            Member::Copy { y, .. } => y.command is SendEof && y.v.phase is Ending,
            Member::Decode { y, .. } => y.command is SendEof && y.stage.phase is Ending,
            Member::Frame { y, .. } => y.command is SendEof && y.v.phase is Ending,
            Member::Encode { y, .. } => y.command is SendEof && y.v.phase is Ending,
            Member::Fanout { y, .. } => y.command is SendEof && y.v.phase is Ending,
            Member::Mux { .. } => false,
        }
    }

    /// It has come to its end, or is telling it.
    pub open spec fn through(self) -> bool {
        self.over() || self.telling()
    }

    /// The exchange of its next turn: the first one is its start.
    #[verifier::opaque]
    pub open spec fn exchange(self) -> Exchange<F, E> {
        match self {
            Member::Source { supply, y } => Exchange::Source {
                v: y.v,
                reply: if y.now == 0 {
                    SourceReply::Start
                } else {
                    source_call(supply, y).1
                },
            },
            Member::Copy { y, .. } => Exchange::Copy {
                v: y.v,
                reply: if y.now == 0 {
                    CopyReply::Start
                } else {
                    copy_call(y).1
                },
            },
            Member::Decode { script, y } => Exchange::Decode {
                v: y.stage,
                reply: if y.now == 0 {
                    DecodeReply::Start
                } else {
                    decode_call(script, y).1
                },
            },
            Member::Frame { script, y } => Exchange::Frame {
                v: y.v,
                reply: if y.now == 0 {
                    FrameReply::Start
                } else {
                    frame_call(script, y).1
                },
            },
            Member::Encode { script, y } => Exchange::Encode {
                v: y.v,
                reply: if y.now == 0 {
                    EncodeReply::Start
                } else {
                    encode_call(script, y).1
                },
            },
            Member::Fanout { y, .. } => Exchange::Fanout {
                v: y.v,
                reply: if y.now == 0 {
                    FanoutReply::Start
                } else {
                    fanout_call(y).1
                },
            },
            Member::Mux { clock, y } => Exchange::Mux {
                v: y.v,
                reply: if y.now == 0 {
                    MuxReply::Start
                } else {
                    mux_call(clock, y).1
                },
                elapsed: (clock.time)(y.now),
            },
        }
    }

    /// It takes one turn, and sees this.
    #[verifier::opaque]
    pub open spec fn turned(self, shared: Shared<E>) -> Member<F, E> {
        let sees = |i: nat| shared;
        match self {
            Member::Source { supply, y } => {
                let g = SourceScript { supply, shared: sees };
                Member::Source {
                    supply,
                    y: if y.now == 0 {
                        g.answered(y, SourceReply::Start)
                    } else {
                        g.turn(y)
                    },
                }
            },
            Member::Copy { script, y } => Member::Copy {
                script,
                y: if y.now == 0 {
                    seeing(script, sees).copy_answered(y, CopyReply::Start)
                } else {
                    seeing(script, sees).copy_turn(y)
                },
            },
            Member::Decode { script, y } => Member::Decode {
                script,
                y: if y.now == 0 {
                    seeing(script, sees).decode_answered(y, DecodeReply::Start)
                } else {
                    seeing(script, sees).decode_turn(y)
                },
            },
            Member::Frame { script, y } => Member::Frame {
                script,
                y: if y.now == 0 {
                    seeing(script, sees).frame_answered(y, FrameReply::Start)
                } else {
                    seeing(script, sees).frame_turn(y)
                },
            },
            Member::Encode { script, y } => Member::Encode {
                script,
                y: if y.now == 0 {
                    seeing(script, sees).encode_answered(y, EncodeReply::Start)
                } else {
                    seeing(script, sees).encode_turn(y)
                },
            },
            Member::Fanout { script, y } => Member::Fanout {
                script,
                y: if y.now == 0 {
                    seeing(script, sees).fanout_answered(y, FanoutReply::Start)
                } else {
                    seeing(script, sees).fanout_turn(y)
                },
            },
            Member::Mux { clock, y } => {
                let g = MuxScript { clock, shared: sees };
                Member::Mux {
                    clock,
                    y: if y.now == 0 {
                        g.answered(y, MuxReply::Start)
                    } else {
                        g.turn(y)
                    },
                }
            },
        }
    }

    /// It has not started yet, and stands where it can do its work.
    pub open spec fn ready(self) -> bool {
        match self {
            Member::Source { supply, y } => {
                &&& y == source_idle::<E>(y.v)
                &&& y.v.phase is Top
                &&& y.v.frames == (supply is Frames)
                &&& y.v.routes.len() <= usize::MAX
                &&& !y.v.park_at_eof
                &&& !y.v.ended
            },
            Member::Copy { y, .. } => y == copy_idle(y.v, y.inbox),
            Member::Decode { y, .. } => y == decode_idle::<F, E>(y.stage, y.inbox),
            Member::Frame { script, y } => y == frame_idle::<F, E>(y.v, y.k, y.inbox)
                && extras_have_places(script, y.k, y.v.extras_base),
            Member::Encode { y, .. } => y == encode_idle::<F, E>(y.v, y.inbox),
            Member::Fanout { y, .. } => y == fanout_idle(y.v, y.inbox),
            Member::Mux { clock, y } => y == mux_idle(y.v.reports, y.inboxes) && clock.wf()
                && y.inboxes.len() <= u32::MAX,
        }
    }

    /// What it adds to the counters in all, before it has started.
    pub open spec fn due(self) -> Tally {
        match self {
            Member::Source { supply, .. } => supply.reading(supply.len()),
            Member::Copy { y, .. } => of_copied(y.inbox.len()),
            Member::Decode { script, y } => decoder_tally(script, y.stage.to, y.inbox),
            Member::Frame { script, y } => Tally::of_written(
                counted_here(y.v.to, stage_out(script, y.k, y.inbox).len()),
            ),
            Member::Encode { script, y } => of_encoded(packets_of(script, y.inbox)),
            Member::Fanout { y, .. } => Tally::of_written(counted_here(y.v.to, y.inbox.len())),
            Member::Mux { y, .. } => Tally::of_written(frames_in_all(y.inboxes)),
        }
    }

    /// The bytes that it puts into the queues in all, less those that it takes out of
    /// them, before it has started.
    pub open spec fn burden(self) -> int {
        match self {
            Member::Source { supply, y } => load(supply.shares(y.v.routes, supply.len(), 0)),
            Member::Copy { y, .. } => -weight(y.inbox),
            Member::Decode { y, .. } => -weight(sizes_of(y.inbox)),
            _ => 0,
        }
    }
}

/// A worker that was at its start in state `m` has handed on all that it should.
pub open spec fn handed_on<F, E>(m: Member<F, E>, end: Member<F, E>) -> bool {
    match (m, end) {
        (Member::Source { supply, y }, Member::Source { y: q, .. }) => q.sent == supply.shares(
            y.v.routes,
            supply.len(),
            0,
        ),
        (Member::Copy { y, .. }, Member::Copy { y: q, .. }) => q.inbox.len() == 0 && q.out
            == y.inbox.len(),
        (Member::Decode { script, y }, Member::Decode { y: q, .. }) => q.inbox.len() == 0 && q.out
            == decoded_frames(y.inbox) + script.tail,
        (Member::Frame { script, y }, Member::Frame { y: q, .. }) => q.out == stage_out(
            script,
            y.k,
            y.inbox,
        ) && q.extra == stage_extra(script, y.k, y.inbox),
        (Member::Encode { script, y }, Member::Encode { y: q, .. }) => q.out == packets_of(
            script,
            y.inbox,
        ),
        (Member::Fanout { y, .. }, Member::Fanout { y: q, .. }) => q.out == y.inbox,
        (Member::Mux { y, .. }, Member::Mux { y: q, .. }) => q.shown == frames_in_all(y.inboxes),
        _ => false,
    }
}

/// A worker after the turns in which it saw these states.
pub open spec fn after_seeing<F, E>(m: Member<F, E>, seen: Seq<Shared<E>>) -> Member<F, E>
    decreases seen.len(),
{
    if seen.len() == 0 {
        m
    } else {
        after_seeing(m, seen.drop_last()).turned(seen.last())
    }
}

/// What a worker sees at each of its turns; after these, the last.
pub open spec fn sight<E>(seen: Seq<Shared<E>>, last: Shared<E>) -> spec_fn(nat) -> Shared<E> {
    |i: nat|
        if i < seen.len() {
            seen[i as int]
        } else {
            last
        }
}

/// Nobody stops, and no counter is at the end of its range.
pub open spec fn calm<E>(s: Shared<E>) -> bool {
    !s.abort.cancelled && s.counters.snapshot_spec().has_room(1)
}

/// The worker took each of these turns.
pub open spec fn took_turns<F, E>(m: Member<F, E>, seen: Seq<Shared<E>>) -> bool {
    forall|j: int| 0 <= j < seen.len() ==> !(#[trigger] after_seeing(m, seen.take(j))).over()
}

proof fn fewer_turns<F, E>(m: Member<F, E>, seen: Seq<Shared<E>>)
    requires
        took_turns(m, seen),
        seen.len() > 0,
    ensures
        took_turns(m, seen.drop_last()),
        !after_seeing(m, seen.drop_last()).over(),
{
    let fewer = seen.drop_last();
    assert forall|j: int| 0 <= j < fewer.len() implies !(#[trigger] after_seeing(
        m,
        fewer.take(j),
    )).over() by {
        assert(fewer.take(j) =~= seen.take(j));
        assert(!after_seeing(m, seen.take(j)).over());
    }
    assert(seen.take(seen.len() - 1) =~= fewer);
}

proof fn source_follows<F, E>(
    supply: Supply<F>,
    y: SourceSystem<E>,
    seen: Seq<Shared<E>>,
    all: spec_fn(nat) -> Shared<E>,
)
    requires
        y.now == 0,
        took_turns((Member::<F, E>::Source { supply, y }), seen),
        forall|j: nat| j < seen.len() ==> #[trigger] all(j) == seen[j as int],
    ensures
        ({
            let g = SourceScript { supply, shared: all };
            let start = g.answered(y, SourceReply::Start);
            let m = after_seeing((Member::<F, E>::Source { supply, y }), seen);
            &&& m.now() == seen.len()
            &&& seen.len() > 0 ==> m == Member::<F, E>::Source {
                supply,
                y: after_turns(g.turns(), (seen.len() - 1) as nat, start),
            }
        }),
    decreases seen.len(),
{
    reveal(Member::turned);
    let g = SourceScript { supply, shared: all };
    let start = g.answered(y, SourceReply::Start);
    let m = Member::<F, E>::Source { supply, y };
    if seen.len() > 0 {
        let n = (seen.len() - 1) as nat;
        fewer_turns(m, seen);
        source_follows(supply, y, seen.drop_last(), all);
        assert(all(n) == seen.last());
        if n == 0 {
            assert(seen.drop_last() =~= Seq::empty());
            assert(after_turns(g.turns(), 0, start) == start);
        } else {
            one_more_turn(g.turns(), (n - 1) as nat, start);
        }
    }
}

proof fn source_ends<F, E>(
    supply: Supply<F>,
    y: SourceSystem<E>,
    seen: Seq<Shared<E>>,
    last: Shared<E>,
)
    requires
        (Member::<F, E>::Source { supply, y }).ready(),
        took_turns((Member::<F, E>::Source { supply, y }), seen),
        after_seeing((Member::<F, E>::Source { supply, y }), seen).through(),
        forall|j: int| 0 <= j < seen.len() ==> calm(#[trigger] seen[j]),
        calm(last),
        !last.budget.full(),
    ensures
        ({
            let m = Member::<F, E>::Source { supply, y };
            &&& after_seeing(m, seen).tally() == m.due()
            &&& after_seeing(m, seen).queued() == m.burden()
            &&& handed_on(m, after_seeing(m, seen))
        }),
{
    let all = sight(seen, last);
    let g = SourceScript { supply, shared: all };
    let m = Member::<F, E>::Source { supply, y };
    let start = source_start(g, y.v);
    source_follows::<F, E>(supply, y, seen, all);
    assert(undisturbed(all)) by {
        assert forall|i: nat| !(#[trigger] all(i)).abort.cancelled && all(
            i,
        ).counters.snapshot_spec().has_room(1) by {
            if i < seen.len() {
                assert(calm(seen[i as int]));
            }
        }
    }
    assert(roomy_from(all, seen.len())) by {
        assert forall|i: nat| seen.len() <= i implies !(#[trigger] all(i)).budget.full() by {}
    }
    source_runs(g, y.v);
    let q = choose|q: SourceSystem<E>| #[trigger]
        leads_to(g.turns(), start, q) && source_done(supply, y.v, q);
    assert(seen.len() > 0);
    let n = (seen.len() - 1) as nat;
    let p = after_turns(g.turns(), n, start);
    one_more_turn(g.turns(), n, start);
    let end = g.turn(p);
    assert(leads_to(g.turns(), start, end));
    assert(end.tally =~= p.tally);
    there_is_one_end(g.turns(), start, end, q);
}

proof fn copier_follows<F, E>(
    script: Script<F, E>,
    y: CopySystem,
    seen: Seq<Shared<E>>,
    all: spec_fn(nat) -> Shared<E>,
)
    requires
        y.now == 0,
        took_turns((Member::<F, E>::Copy { script, y }), seen),
        forall|j: nat| j < seen.len() ==> #[trigger] all(j) == seen[j as int],
    ensures
        ({
            let g = seeing(script, all);
            let start = g.copy_answered(y, CopyReply::Start);
            let m = after_seeing((Member::<F, E>::Copy { script, y }), seen);
            &&& m.now() == seen.len()
            &&& seen.len() > 0 ==> m == Member::<F, E>::Copy {
                script,
                y: after_turns(g.copy_turns(), (seen.len() - 1) as nat, start),
            }
        }),
    decreases seen.len(),
{
    reveal(Member::turned);
    let g = seeing(script, all);
    let start = g.copy_answered(y, CopyReply::Start);
    let m = Member::<F, E>::Copy { script, y };
    if seen.len() > 0 {
        let n = (seen.len() - 1) as nat;
        fewer_turns(m, seen);
        copier_follows(script, y, seen.drop_last(), all);
        assert(all(n) == seen.last());
        if n == 0 {
            assert(seen.drop_last() =~= Seq::empty());
            assert(after_turns(g.copy_turns(), 0, start) == start);
        } else {
            one_more_turn(g.copy_turns(), (n - 1) as nat, start);
        }
    }
}

proof fn copier_ends<F, E>(
    script: Script<F, E>,
    y: CopySystem,
    seen: Seq<Shared<E>>,
    last: Shared<E>,
)
    requires
        (Member::<F, E>::Copy { script, y }).ready(),
        took_turns((Member::<F, E>::Copy { script, y }), seen),
        after_seeing((Member::<F, E>::Copy { script, y }), seen).through(),
        forall|j: int| 0 <= j < seen.len() ==> calm(#[trigger] seen[j]),
        calm(last),
    ensures
        ({
            let m = Member::<F, E>::Copy { script, y };
            &&& after_seeing(m, seen).tally() == m.due()
            &&& after_seeing(m, seen).queued() == m.burden()
            &&& handed_on(m, after_seeing(m, seen))
        }),
{
    let all = sight(seen, last);
    let g = seeing(script, all);
    let m = Member::<F, E>::Copy { script, y };
    let start = copy_start(g, y.v, y.inbox);
    copier_follows::<F, E>(script, y, seen, all);
    assert(undisturbed(all)) by {
        assert forall|i: nat| !(#[trigger] all(i)).abort.cancelled && all(
            i,
        ).counters.snapshot_spec().has_room(1) by {
            if i < seen.len() {
                assert(calm(seen[i as int]));
            }
        }
    }
    copier_runs(g, y.v, y.inbox);
    let q = choose|q: CopySystem| #[trigger]
        leads_to(g.copy_turns(), start, q) && copy_done(y.inbox, q);
    assert(seen.len() > 0);
    let n = (seen.len() - 1) as nat;
    let p = after_turns(g.copy_turns(), n, start);
    one_more_turn(g.copy_turns(), n, start);
    let end = g.copy_turn(p);
    assert(leads_to(g.copy_turns(), start, end));
    assert(end.tally =~= p.tally);
    there_is_one_end(g.copy_turns(), start, end, q);
}

proof fn decoder_follows<F, E>(
    script: Script<F, E>,
    y: DecodeSystem<F, E>,
    seen: Seq<Shared<E>>,
    all: spec_fn(nat) -> Shared<E>,
)
    requires
        y.now == 0,
        took_turns((Member::<F, E>::Decode { script, y }), seen),
        forall|j: nat| j < seen.len() ==> #[trigger] all(j) == seen[j as int],
    ensures
        ({
            let g = seeing(script, all);
            let start = g.decode_answered(y, DecodeReply::Start);
            let m = after_seeing((Member::<F, E>::Decode { script, y }), seen);
            &&& m.now() == seen.len()
            &&& seen.len() > 0 ==> m == Member::<F, E>::Decode {
                script,
                y: after_turns(g.decode_turns(), (seen.len() - 1) as nat, start),
            }
        }),
    decreases seen.len(),
{
    reveal(Member::turned);
    let g = seeing(script, all);
    let start = g.decode_answered(y, DecodeReply::Start);
    let m = Member::<F, E>::Decode { script, y };
    if seen.len() > 0 {
        let n = (seen.len() - 1) as nat;
        fewer_turns(m, seen);
        decoder_follows(script, y, seen.drop_last(), all);
        assert(all(n) == seen.last());
        if n == 0 {
            assert(seen.drop_last() =~= Seq::empty());
            assert(after_turns(g.decode_turns(), 0, start) == start);
        } else {
            one_more_turn(g.decode_turns(), (n - 1) as nat, start);
        }
    }
}

proof fn decoder_ends<F, E>(
    script: Script<F, E>,
    y: DecodeSystem<F, E>,
    seen: Seq<Shared<E>>,
    last: Shared<E>,
)
    requires
        (Member::<F, E>::Decode { script, y }).ready(),
        took_turns((Member::<F, E>::Decode { script, y }), seen),
        after_seeing((Member::<F, E>::Decode { script, y }), seen).through(),
        forall|j: int| 0 <= j < seen.len() ==> calm(#[trigger] seen[j]),
        calm(last),
    ensures
        ({
            let m = Member::<F, E>::Decode { script, y };
            &&& after_seeing(m, seen).tally() == m.due()
            &&& after_seeing(m, seen).queued() == m.burden()
            &&& handed_on(m, after_seeing(m, seen))
        }),
{
    let all = sight(seen, last);
    let g = seeing(script, all);
    let m = Member::<F, E>::Decode { script, y };
    let start = decode_start(g, y.stage, y.inbox);
    decoder_follows::<F, E>(script, y, seen, all);
    assert(undisturbed(all)) by {
        assert forall|i: nat| !(#[trigger] all(i)).abort.cancelled && all(
            i,
        ).counters.snapshot_spec().has_room(1) by {
            if i < seen.len() {
                assert(calm(seen[i as int]));
            }
        }
    }
    decoder_runs(g, y.stage, y.inbox);
    let q = choose|q: DecodeSystem<F, E>| #[trigger]
        leads_to(g.decode_turns(), start, q) && decode_done(
            script,
            y.stage.to,
            y.inbox,
            q,
        );
    assert(seen.len() > 0);
    let n = (seen.len() - 1) as nat;
    let p = after_turns(g.decode_turns(), n, start);
    one_more_turn(g.decode_turns(), n, start);
    let end = g.decode_turn(p);
    assert(leads_to(g.decode_turns(), start, end));
    assert(end.tally =~= p.tally);
    there_is_one_end(g.decode_turns(), start, end, q);
}

proof fn stage_follows<F, E>(
    script: Script<F, E>,
    y: FrameSystem<F, E>,
    seen: Seq<Shared<E>>,
    all: spec_fn(nat) -> Shared<E>,
)
    requires
        y.now == 0,
        took_turns((Member::<F, E>::Frame { script, y }), seen),
        forall|j: nat| j < seen.len() ==> #[trigger] all(j) == seen[j as int],
    ensures
        ({
            let g = seeing(script, all);
            let start = g.frame_answered(y, FrameReply::Start);
            let m = after_seeing((Member::<F, E>::Frame { script, y }), seen);
            &&& m.now() == seen.len()
            &&& seen.len() > 0 ==> m == Member::<F, E>::Frame {
                script,
                y: after_turns(g.frame_turns(), (seen.len() - 1) as nat, start),
            }
        }),
    decreases seen.len(),
{
    reveal(Member::turned);
    let g = seeing(script, all);
    let start = g.frame_answered(y, FrameReply::Start);
    let m = Member::<F, E>::Frame { script, y };
    if seen.len() > 0 {
        let n = (seen.len() - 1) as nat;
        fewer_turns(m, seen);
        stage_follows(script, y, seen.drop_last(), all);
        assert(all(n) == seen.last());
        if n == 0 {
            assert(seen.drop_last() =~= Seq::empty());
            assert(after_turns(g.frame_turns(), 0, start) == start);
        } else {
            one_more_turn(g.frame_turns(), (n - 1) as nat, start);
        }
    }
}

proof fn stage_ends<F, E>(
    script: Script<F, E>,
    y: FrameSystem<F, E>,
    seen: Seq<Shared<E>>,
    last: Shared<E>,
)
    requires
        (Member::<F, E>::Frame { script, y }).ready(),
        took_turns((Member::<F, E>::Frame { script, y }), seen),
        after_seeing((Member::<F, E>::Frame { script, y }), seen).through(),
        forall|j: int| 0 <= j < seen.len() ==> calm(#[trigger] seen[j]),
        calm(last),
    ensures
        ({
            let m = Member::<F, E>::Frame { script, y };
            &&& after_seeing(m, seen).tally() == m.due()
            &&& after_seeing(m, seen).queued() == m.burden()
            &&& handed_on(m, after_seeing(m, seen))
        }),
{
    let all = sight(seen, last);
    let g = seeing(script, all);
    let m = Member::<F, E>::Frame { script, y };
    let start = frame_start(g, y.v, y.k, y.inbox);
    stage_follows::<F, E>(script, y, seen, all);
    assert(undisturbed(all)) by {
        assert forall|i: nat| !(#[trigger] all(i)).abort.cancelled && all(
            i,
        ).counters.snapshot_spec().has_room(1) by {
            if i < seen.len() {
                assert(calm(seen[i as int]));
            }
        }
    }
    stage_runs(g, y.v, y.k, y.inbox);
    let q = choose|q: FrameSystem<F, E>| #[trigger]
        leads_to(g.frame_turns(), start, q) && frame_done(
            script,
            y.v.to,
            y.k,
            y.inbox,
            q,
        );
    assert(seen.len() > 0);
    let n = (seen.len() - 1) as nat;
    let p = after_turns(g.frame_turns(), n, start);
    one_more_turn(g.frame_turns(), n, start);
    let end = g.frame_turn(p);
    assert(leads_to(g.frame_turns(), start, end));
    assert(end.tally =~= p.tally);
    there_is_one_end(g.frame_turns(), start, end, q);
}

proof fn encoder_follows<F, E>(
    script: Script<F, E>,
    y: EncodeSystem<F, E>,
    seen: Seq<Shared<E>>,
    all: spec_fn(nat) -> Shared<E>,
)
    requires
        y.now == 0,
        took_turns((Member::<F, E>::Encode { script, y }), seen),
        forall|j: nat| j < seen.len() ==> #[trigger] all(j) == seen[j as int],
    ensures
        ({
            let g = seeing(script, all);
            let start = g.encode_answered(y, EncodeReply::Start);
            let m = after_seeing((Member::<F, E>::Encode { script, y }), seen);
            &&& m.now() == seen.len()
            &&& seen.len() > 0 ==> m == Member::<F, E>::Encode {
                script,
                y: after_turns(g.encode_turns(), (seen.len() - 1) as nat, start),
            }
        }),
    decreases seen.len(),
{
    reveal(Member::turned);
    let g = seeing(script, all);
    let start = g.encode_answered(y, EncodeReply::Start);
    let m = Member::<F, E>::Encode { script, y };
    if seen.len() > 0 {
        let n = (seen.len() - 1) as nat;
        fewer_turns(m, seen);
        encoder_follows(script, y, seen.drop_last(), all);
        assert(all(n) == seen.last());
        if n == 0 {
            assert(seen.drop_last() =~= Seq::empty());
            assert(after_turns(g.encode_turns(), 0, start) == start);
        } else {
            one_more_turn(g.encode_turns(), (n - 1) as nat, start);
        }
    }
}

proof fn encoder_ends<F, E>(
    script: Script<F, E>,
    y: EncodeSystem<F, E>,
    seen: Seq<Shared<E>>,
    last: Shared<E>,
)
    requires
        (Member::<F, E>::Encode { script, y }).ready(),
        took_turns((Member::<F, E>::Encode { script, y }), seen),
        after_seeing((Member::<F, E>::Encode { script, y }), seen).through(),
        forall|j: int| 0 <= j < seen.len() ==> calm(#[trigger] seen[j]),
        calm(last),
    ensures
        ({
            let m = Member::<F, E>::Encode { script, y };
            &&& after_seeing(m, seen).tally() == m.due()
            &&& after_seeing(m, seen).queued() == m.burden()
            &&& handed_on(m, after_seeing(m, seen))
        }),
{
    let all = sight(seen, last);
    let g = seeing(script, all);
    let m = Member::<F, E>::Encode { script, y };
    let start = encode_start(g, y.v, y.inbox);
    encoder_follows::<F, E>(script, y, seen, all);
    assert(undisturbed(all)) by {
        assert forall|i: nat| !(#[trigger] all(i)).abort.cancelled && all(
            i,
        ).counters.snapshot_spec().has_room(1) by {
            if i < seen.len() {
                assert(calm(seen[i as int]));
            }
        }
    }
    encoder_runs(g, y.v, y.inbox);
    let q = choose|q: EncodeSystem<F, E>| #[trigger]
        leads_to(g.encode_turns(), start, q) && encode_done(script, y.inbox, q);
    assert(seen.len() > 0);
    let n = (seen.len() - 1) as nat;
    let p = after_turns(g.encode_turns(), n, start);
    one_more_turn(g.encode_turns(), n, start);
    let end = g.encode_turn(p);
    assert(leads_to(g.encode_turns(), start, end));
    assert(end.tally =~= p.tally);
    there_is_one_end(g.encode_turns(), start, end, q);
}

proof fn fanout_follows<F, E>(
    script: Script<F, E>,
    y: FanoutSystem<F>,
    seen: Seq<Shared<E>>,
    all: spec_fn(nat) -> Shared<E>,
)
    requires
        y.now == 0,
        took_turns((Member::<F, E>::Fanout { script, y }), seen),
        forall|j: nat| j < seen.len() ==> #[trigger] all(j) == seen[j as int],
    ensures
        ({
            let g = seeing(script, all);
            let start = g.fanout_answered(y, FanoutReply::Start);
            let m = after_seeing((Member::<F, E>::Fanout { script, y }), seen);
            &&& m.now() == seen.len()
            &&& seen.len() > 0 ==> m == Member::<F, E>::Fanout {
                script,
                y: after_turns(g.fanout_turns(), (seen.len() - 1) as nat, start),
            }
        }),
    decreases seen.len(),
{
    reveal(Member::turned);
    let g = seeing(script, all);
    let start = g.fanout_answered(y, FanoutReply::Start);
    let m = Member::<F, E>::Fanout { script, y };
    if seen.len() > 0 {
        let n = (seen.len() - 1) as nat;
        fewer_turns(m, seen);
        fanout_follows(script, y, seen.drop_last(), all);
        assert(all(n) == seen.last());
        if n == 0 {
            assert(seen.drop_last() =~= Seq::empty());
            assert(after_turns(g.fanout_turns(), 0, start) == start);
        } else {
            one_more_turn(g.fanout_turns(), (n - 1) as nat, start);
        }
    }
}

proof fn fanout_ends<F, E>(
    script: Script<F, E>,
    y: FanoutSystem<F>,
    seen: Seq<Shared<E>>,
    last: Shared<E>,
)
    requires
        (Member::<F, E>::Fanout { script, y }).ready(),
        took_turns((Member::<F, E>::Fanout { script, y }), seen),
        after_seeing((Member::<F, E>::Fanout { script, y }), seen).through(),
        forall|j: int| 0 <= j < seen.len() ==> calm(#[trigger] seen[j]),
        calm(last),
    ensures
        ({
            let m = Member::<F, E>::Fanout { script, y };
            &&& after_seeing(m, seen).tally() == m.due()
            &&& after_seeing(m, seen).queued() == m.burden()
            &&& handed_on(m, after_seeing(m, seen))
        }),
{
    let all = sight(seen, last);
    let g = seeing(script, all);
    let m = Member::<F, E>::Fanout { script, y };
    let start = fanout_start(g, y.v, y.inbox);
    fanout_follows::<F, E>(script, y, seen, all);
    assert(undisturbed(all)) by {
        assert forall|i: nat| !(#[trigger] all(i)).abort.cancelled && all(
            i,
        ).counters.snapshot_spec().has_room(1) by {
            if i < seen.len() {
                assert(calm(seen[i as int]));
            }
        }
    }
    fanout_runs(g, y.v, y.inbox);
    let q = choose|q: FanoutSystem<F>| #[trigger]
        leads_to(g.fanout_turns(), start, q) && fanout_done(y.v.to, y.inbox, q);
    assert(seen.len() > 0);
    let n = (seen.len() - 1) as nat;
    let p = after_turns(g.fanout_turns(), n, start);
    one_more_turn(g.fanout_turns(), n, start);
    let end = g.fanout_turn(p);
    assert(leads_to(g.fanout_turns(), start, end));
    assert(end.tally =~= p.tally);
    there_is_one_end(g.fanout_turns(), start, end, q);
}

proof fn mux_follows<F, E>(
    clock: MuxClock,
    y: MuxSystem,
    seen: Seq<Shared<E>>,
    all: spec_fn(nat) -> Shared<E>,
)
    requires
        y.now == 0,
        took_turns((Member::<F, E>::Mux { clock, y }), seen),
        forall|j: nat| j < seen.len() ==> #[trigger] all(j) == seen[j as int],
    ensures
        ({
            let g = MuxScript { clock, shared: all };
            let start = g.answered(y, MuxReply::Start);
            let m = after_seeing((Member::<F, E>::Mux { clock, y }), seen);
            &&& m.now() == seen.len()
            &&& seen.len() > 0 ==> m == Member::<F, E>::Mux {
                clock,
                y: after_turns(g.turns(), (seen.len() - 1) as nat, start),
            }
        }),
    decreases seen.len(),
{
    reveal(Member::turned);
    let g = MuxScript { clock, shared: all };
    let start = g.answered(y, MuxReply::Start);
    let m = Member::<F, E>::Mux { clock, y };
    if seen.len() > 0 {
        let n = (seen.len() - 1) as nat;
        fewer_turns(m, seen);
        mux_follows::<F, E>(clock, y, seen.drop_last(), all);
        assert(all(n) == seen.last());
        if n == 0 {
            assert(seen.drop_last() =~= Seq::empty());
            assert(after_turns(g.turns(), 0, start) == start);
        } else {
            one_more_turn(g.turns(), (n - 1) as nat, start);
        }
    }
}

proof fn mux_ends<F, E>(
    clock: MuxClock,
    y: MuxSystem,
    seen: Seq<Shared<E>>,
    last: Shared<E>,
)
    requires
        (Member::<F, E>::Mux { clock, y }).ready(),
        took_turns((Member::<F, E>::Mux { clock, y }), seen),
        after_seeing((Member::<F, E>::Mux { clock, y }), seen).through(),
        forall|j: int| 0 <= j < seen.len() ==> calm(#[trigger] seen[j]),
        calm(last),
    ensures
        ({
            let m = Member::<F, E>::Mux { clock, y };
            &&& after_seeing(m, seen).tally() == m.due()
            &&& after_seeing(m, seen).queued() == m.burden()
            &&& handed_on(m, after_seeing(m, seen))
        }),
{
    let all = sight(seen, last);
    let g = MuxScript { clock, shared: all };
    let m = Member::<F, E>::Mux { clock, y };
    let start = mux_start(g, y.v.reports, y.inboxes);
    mux_follows::<F, E>(clock, y, seen, all);
    assert(undisturbed(all)) by {
        assert forall|i: nat| !(#[trigger] all(i)).abort.cancelled && all(
            i,
        ).counters.snapshot_spec().has_room(1) by {
            if i < seen.len() {
                assert(calm(seen[i as int]));
            }
        }
    }
    mux_runs(g, y.v.reports, y.inboxes);
    let q = choose|q: MuxSystem| #[trigger]
        leads_to(g.turns(), start, q) && mux_done(y.inboxes, q);
    assert(seen.len() > 0);
    let n = (seen.len() - 1) as nat;
    let p = after_turns(g.turns(), n, start);
    one_more_turn(g.turns(), n, start);
    let end = g.turn(p);
    assert(leads_to(g.turns(), start, end));
    assert(end.tally =~= p.tally);
    there_is_one_end(g.turns(), start, end, q);
}

/// Whatever a worker saw, as long as nobody was stopped: once it has come to its end, or
/// is telling it, it has handed on all that it should, and has added to the counters and
/// to the queues what it was to add.
pub proof fn member_ends<F, E>(m: Member<F, E>, seen: Seq<Shared<E>>, last: Shared<E>)
    requires
        m.ready(),
        took_turns(m, seen),
        after_seeing(m, seen).through(),
        forall|j: int| 0 <= j < seen.len() ==> calm(#[trigger] seen[j]),
        calm(last),
        !last.budget.full(),
    ensures
        after_seeing(m, seen).tally() == m.due(),
        after_seeing(m, seen).queued() == m.burden(),
        handed_on(m, after_seeing(m, seen)),
{
    match m {
        Member::Source { supply, y } => source_ends(supply, y, seen, last),
        Member::Copy { script, y } => copier_ends(script, y, seen, last),
        Member::Decode { script, y } => decoder_ends(script, y, seen, last),
        Member::Frame { script, y } => stage_ends(script, y, seen, last),
        Member::Encode { script, y } => encoder_ends(script, y, seen, last),
        Member::Fanout { script, y } => fanout_ends(script, y, seen, last),
        Member::Mux { clock, y } => mux_ends::<F, E>(clock, y, seen, last),
    }
}

/// The first `n` states that a worker sees.
pub open spec fn first_seen<E>(shared: spec_fn(nat) -> Shared<E>, n: nat) -> Seq<Shared<E>> {
    Seq::new(n, |i: int| shared(i as nat))
}

/// A worker that is not over yet has taken all of its turns.
proof fn turns_were_taken<F, E>(m: Member<F, E>, shared: spec_fn(nat) -> Shared<E>, n: nat)
    requires
        forall|j: nat| j < n ==> !(#[trigger] after_seeing(m, first_seen(shared, j))).over(),
    ensures
        took_turns(m, first_seen(shared, n)),
{
    let seen = first_seen(shared, n);
    assert forall|j: int| 0 <= j < seen.len() implies !(#[trigger] after_seeing(
        m,
        seen.take(j),
    )).over() by {
        assert(seen.take(j) =~= first_seen(shared, j as nat));
        assert(!after_seeing(m, first_seen(shared, j as nat)).over());
    }
}

proof fn source_comes_to_its_end<F, E>(
    supply: Supply<F>,
    y: SourceSystem<E>,
    shared: spec_fn(nat) -> Shared<E>,
)
    requires
        (Member::<F, E>::Source { supply, y }).ready(),
        undisturbed(shared),
        roomy(shared),
    ensures
        exists|n: nat| #[trigger]
            after_seeing((Member::<F, E>::Source { supply, y }), first_seen(shared, n)).over(),
{
    let m = Member::<F, E>::Source { supply, y };
    let g = SourceScript { supply, shared };
    let start = source_start(g, y.v);
    source_runs(g, y.v);
    let q = choose|q: SourceSystem<E>| #[trigger]
        leads_to(g.turns(), start, q) && source_done(supply, y.v, q);
    let n = choose|n: nat| #[trigger] after_turns(g.turns(), n, start) == q;
    if forall|j: nat| j < n + 1 ==> !(#[trigger] after_seeing(m, first_seen(shared, j))).over() {
        turns_were_taken(m, shared, n + 1);
        source_follows::<F, E>(supply, y, first_seen(shared, n + 1), shared);
        assert(after_seeing(m, first_seen(shared, n + 1)).over());
    }
}

proof fn copier_comes_to_its_end<F, E>(
    script: Script<F, E>,
    y: CopySystem,
    shared: spec_fn(nat) -> Shared<E>,
)
    requires
        (Member::<F, E>::Copy { script, y }).ready(),
        undisturbed(shared),
    ensures
        exists|n: nat| #[trigger]
            after_seeing((Member::<F, E>::Copy { script, y }), first_seen(shared, n)).over(),
{
    let m = Member::<F, E>::Copy { script, y };
    let g = seeing(script, shared);
    let start = copy_start(g, y.v, y.inbox);
    copier_runs(g, y.v, y.inbox);
    let q = choose|q: CopySystem| #[trigger]
        leads_to(g.copy_turns(), start, q) && copy_done(y.inbox, q);
    let n = choose|n: nat| #[trigger] after_turns(g.copy_turns(), n, start) == q;
    if forall|j: nat| j < n + 1 ==> !(#[trigger] after_seeing(m, first_seen(shared, j))).over() {
        turns_were_taken(m, shared, n + 1);
        copier_follows::<F, E>(script, y, first_seen(shared, n + 1), shared);
        assert(after_seeing(m, first_seen(shared, n + 1)).over());
    }
}

proof fn decoder_comes_to_its_end<F, E>(
    script: Script<F, E>,
    y: DecodeSystem<F, E>,
    shared: spec_fn(nat) -> Shared<E>,
)
    requires
        (Member::<F, E>::Decode { script, y }).ready(),
        undisturbed(shared),
    ensures
        exists|n: nat| #[trigger]
            after_seeing((Member::<F, E>::Decode { script, y }), first_seen(shared, n)).over(),
{
    let m = Member::<F, E>::Decode { script, y };
    let g = seeing(script, shared);
    let start = decode_start(g, y.stage, y.inbox);
    decoder_runs(g, y.stage, y.inbox);
    let q = choose|q: DecodeSystem<F, E>| #[trigger]
        leads_to(g.decode_turns(), start, q) && decode_done(
            script,
            y.stage.to,
            y.inbox,
            q,
        );
    let n = choose|n: nat| #[trigger] after_turns(g.decode_turns(), n, start) == q;
    if forall|j: nat| j < n + 1 ==> !(#[trigger] after_seeing(m, first_seen(shared, j))).over() {
        turns_were_taken(m, shared, n + 1);
        decoder_follows::<F, E>(script, y, first_seen(shared, n + 1), shared);
        assert(after_seeing(m, first_seen(shared, n + 1)).over());
    }
}

proof fn stage_comes_to_its_end<F, E>(
    script: Script<F, E>,
    y: FrameSystem<F, E>,
    shared: spec_fn(nat) -> Shared<E>,
)
    requires
        (Member::<F, E>::Frame { script, y }).ready(),
        undisturbed(shared),
    ensures
        exists|n: nat| #[trigger]
            after_seeing((Member::<F, E>::Frame { script, y }), first_seen(shared, n)).over(),
{
    let m = Member::<F, E>::Frame { script, y };
    let g = seeing(script, shared);
    let start = frame_start(g, y.v, y.k, y.inbox);
    stage_runs(g, y.v, y.k, y.inbox);
    let q = choose|q: FrameSystem<F, E>| #[trigger]
        leads_to(g.frame_turns(), start, q) && frame_done(
            script,
            y.v.to,
            y.k,
            y.inbox,
            q,
        );
    let n = choose|n: nat| #[trigger] after_turns(g.frame_turns(), n, start) == q;
    if forall|j: nat| j < n + 1 ==> !(#[trigger] after_seeing(m, first_seen(shared, j))).over() {
        turns_were_taken(m, shared, n + 1);
        stage_follows::<F, E>(script, y, first_seen(shared, n + 1), shared);
        assert(after_seeing(m, first_seen(shared, n + 1)).over());
    }
}

proof fn encoder_comes_to_its_end<F, E>(
    script: Script<F, E>,
    y: EncodeSystem<F, E>,
    shared: spec_fn(nat) -> Shared<E>,
)
    requires
        (Member::<F, E>::Encode { script, y }).ready(),
        undisturbed(shared),
    ensures
        exists|n: nat| #[trigger]
            after_seeing((Member::<F, E>::Encode { script, y }), first_seen(shared, n)).over(),
{
    let m = Member::<F, E>::Encode { script, y };
    let g = seeing(script, shared);
    let start = encode_start(g, y.v, y.inbox);
    encoder_runs(g, y.v, y.inbox);
    let q = choose|q: EncodeSystem<F, E>| #[trigger]
        leads_to(g.encode_turns(), start, q) && encode_done(script, y.inbox, q);
    let n = choose|n: nat| #[trigger] after_turns(g.encode_turns(), n, start) == q;
    if forall|j: nat| j < n + 1 ==> !(#[trigger] after_seeing(m, first_seen(shared, j))).over() {
        turns_were_taken(m, shared, n + 1);
        encoder_follows::<F, E>(script, y, first_seen(shared, n + 1), shared);
        assert(after_seeing(m, first_seen(shared, n + 1)).over());
    }
}

proof fn fanout_comes_to_its_end<F, E>(
    script: Script<F, E>,
    y: FanoutSystem<F>,
    shared: spec_fn(nat) -> Shared<E>,
)
    requires
        (Member::<F, E>::Fanout { script, y }).ready(),
        undisturbed(shared),
    ensures
        exists|n: nat| #[trigger]
            after_seeing((Member::<F, E>::Fanout { script, y }), first_seen(shared, n)).over(),
{
    let m = Member::<F, E>::Fanout { script, y };
    let g = seeing(script, shared);
    let start = fanout_start(g, y.v, y.inbox);
    fanout_runs(g, y.v, y.inbox);
    let q = choose|q: FanoutSystem<F>| #[trigger]
        leads_to(g.fanout_turns(), start, q) && fanout_done(y.v.to, y.inbox, q);
    let n = choose|n: nat| #[trigger] after_turns(g.fanout_turns(), n, start) == q;
    if forall|j: nat| j < n + 1 ==> !(#[trigger] after_seeing(m, first_seen(shared, j))).over() {
        turns_were_taken(m, shared, n + 1);
        fanout_follows::<F, E>(script, y, first_seen(shared, n + 1), shared);
        assert(after_seeing(m, first_seen(shared, n + 1)).over());
    }
}

proof fn mux_comes_to_its_end<F, E>(
    clock: MuxClock,
    y: MuxSystem,
    shared: spec_fn(nat) -> Shared<E>,
)
    requires
        (Member::<F, E>::Mux { clock, y }).ready(),
        undisturbed(shared),
    ensures
        exists|n: nat| #[trigger]
            after_seeing((Member::<F, E>::Mux { clock, y }), first_seen(shared, n)).over(),
{
    let m = Member::<F, E>::Mux { clock, y };
    let g = MuxScript { clock, shared };
    let start = mux_start(g, y.v.reports, y.inboxes);
    mux_runs(g, y.v.reports, y.inboxes);
    let q = choose|q: MuxSystem| #[trigger]
        leads_to(g.turns(), start, q) && mux_done(y.inboxes, q);
    let n = choose|n: nat| #[trigger] after_turns(g.turns(), n, start) == q;
    if forall|j: nat| j < n + 1 ==> !(#[trigger] after_seeing(m, first_seen(shared, j))).over() {
        turns_were_taken(m, shared, n + 1);
        mux_follows::<F, E>(clock, y, first_seen(shared, n + 1), shared);
        assert(after_seeing(m, first_seen(shared, n + 1)).over());
    }
}

/// Whatever a worker sees, as long as nobody is stopped and no counter is at the end of
/// its range, it comes to its end; a source does where the queues do not stay full.
pub proof fn member_comes_to_its_end<F, E>(m: Member<F, E>, shared: spec_fn(nat) -> Shared<E>)
    requires
        m.ready(),
        undisturbed(shared),
        m is Source ==> roomy(shared),
    ensures
        exists|n: nat| #[trigger] after_seeing(m, first_seen(shared, n)).over(),
{
    match m {
        Member::Source { supply, y } => source_comes_to_its_end(supply, y, shared),
        Member::Copy { script, y } => copier_comes_to_its_end(script, y, shared),
        Member::Decode { script, y } => decoder_comes_to_its_end(script, y, shared),
        Member::Frame { script, y } => stage_comes_to_its_end(script, y, shared),
        Member::Encode { script, y } => encoder_comes_to_its_end(script, y, shared),
        Member::Fanout { script, y } => fanout_comes_to_its_end(script, y, shared),
        Member::Mux { clock, y } => mux_comes_to_its_end::<F, E>(clock, y, shared),
    }
}

proof fn all_is_calm<E>(seen: Seq<Shared<E>>, last: Shared<E>)
    requires
        forall|j: int| 0 <= j < seen.len() ==> calm(#[trigger] seen[j]),
        calm(last),
    ensures
        undisturbed(sight(seen, last)),
{
    let all = sight(seen, last);
    assert forall|i: nat| !(#[trigger] all(i)).abort.cancelled && all(
        i,
    ).counters.snapshot_spec().has_room(1) by {
        if i < seen.len() {
            assert(calm(seen[i as int]));
        }
    }
}

proof fn source_stays_within<F, E>(
    supply: Supply<F>,
    y: SourceSystem<E>,
    seen: Seq<Shared<E>>,
    last: Shared<E>,
)
    requires
        (Member::<F, E>::Source { supply, y }).ready(),
        took_turns((Member::<F, E>::Source { supply, y }), seen),
        forall|j: int| 0 <= j < seen.len() ==> calm(#[trigger] seen[j]),
        calm(last),
        !last.budget.full(),
    ensures
        ({
            let m = Member::<F, E>::Source { supply, y };
            after_seeing(m, seen).tally().at_most(m.due())
        }),
{
    let all = sight(seen, last);
    let g = SourceScript { supply, shared: all };
    let start = source_start(g, y.v);
    source_follows::<F, E>(supply, y, seen, all);
    all_is_calm(seen, last);
    if seen.len() > 0 {
        assert(roomy_from(all, seen.len())) by {
        assert forall|i: nat| seen.len() <= i implies !(#[trigger] all(i)).budget.full() by {}
    }
        source_runs(g, y.v);
        let q = choose|q: SourceSystem<E>| #[trigger]
            leads_to(g.turns(), start, q) && source_done(supply, y.v, q);
        let n = (seen.len() - 1) as nat;
        let p = after_turns(g.turns(), n, start);
        on_the_way(g.turns(), start, p, q);
        counts_only_grow(g.turns(), |x: SourceSystem<E>| x.tally, p, q);
    }
}

proof fn copier_stays_within<F, E>(
    script: Script<F, E>,
    y: CopySystem,
    seen: Seq<Shared<E>>,
    last: Shared<E>,
)
    requires
        (Member::<F, E>::Copy { script, y }).ready(),
        took_turns((Member::<F, E>::Copy { script, y }), seen),
        forall|j: int| 0 <= j < seen.len() ==> calm(#[trigger] seen[j]),
        calm(last),
    ensures
        ({
            let m = Member::<F, E>::Copy { script, y };
            after_seeing(m, seen).tally().at_most(m.due())
        }),
{
    let all = sight(seen, last);
    let g = seeing(script, all);
    let start = copy_start(g, y.v, y.inbox);
    copier_follows::<F, E>(script, y, seen, all);
    all_is_calm(seen, last);
    if seen.len() > 0 {
        copier_runs(g, y.v, y.inbox);
        let q = choose|q: CopySystem| #[trigger]
            leads_to(g.copy_turns(), start, q) && copy_done(y.inbox, q);
        let n = (seen.len() - 1) as nat;
        let p = after_turns(g.copy_turns(), n, start);
        on_the_way(g.copy_turns(), start, p, q);
        counts_only_grow(g.copy_turns(), |x: CopySystem| x.tally, p, q);
    }
}

proof fn decoder_stays_within<F, E>(
    script: Script<F, E>,
    y: DecodeSystem<F, E>,
    seen: Seq<Shared<E>>,
    last: Shared<E>,
)
    requires
        (Member::<F, E>::Decode { script, y }).ready(),
        took_turns((Member::<F, E>::Decode { script, y }), seen),
        forall|j: int| 0 <= j < seen.len() ==> calm(#[trigger] seen[j]),
        calm(last),
    ensures
        ({
            let m = Member::<F, E>::Decode { script, y };
            after_seeing(m, seen).tally().at_most(m.due())
        }),
{
    let all = sight(seen, last);
    let g = seeing(script, all);
    let start = decode_start(g, y.stage, y.inbox);
    decoder_follows::<F, E>(script, y, seen, all);
    all_is_calm(seen, last);
    if seen.len() > 0 {
        decoder_runs(g, y.stage, y.inbox);
        let q = choose|q: DecodeSystem<F, E>| #[trigger]
            leads_to(g.decode_turns(), start, q) && decode_done(
            script,
            y.stage.to,
            y.inbox,
            q,
        );
        let n = (seen.len() - 1) as nat;
        let p = after_turns(g.decode_turns(), n, start);
        on_the_way(g.decode_turns(), start, p, q);
        counts_only_grow(g.decode_turns(), |x: DecodeSystem<F, E>| x.tally, p, q);
    }
}

proof fn stage_stays_within<F, E>(
    script: Script<F, E>,
    y: FrameSystem<F, E>,
    seen: Seq<Shared<E>>,
    last: Shared<E>,
)
    requires
        (Member::<F, E>::Frame { script, y }).ready(),
        took_turns((Member::<F, E>::Frame { script, y }), seen),
        forall|j: int| 0 <= j < seen.len() ==> calm(#[trigger] seen[j]),
        calm(last),
    ensures
        ({
            let m = Member::<F, E>::Frame { script, y };
            after_seeing(m, seen).tally().at_most(m.due())
        }),
{
    let all = sight(seen, last);
    let g = seeing(script, all);
    let start = frame_start(g, y.v, y.k, y.inbox);
    stage_follows::<F, E>(script, y, seen, all);
    all_is_calm(seen, last);
    if seen.len() > 0 {
        stage_runs(g, y.v, y.k, y.inbox);
        let q = choose|q: FrameSystem<F, E>| #[trigger]
            leads_to(g.frame_turns(), start, q) && frame_done(
            script,
            y.v.to,
            y.k,
            y.inbox,
            q,
        );
        let n = (seen.len() - 1) as nat;
        let p = after_turns(g.frame_turns(), n, start);
        on_the_way(g.frame_turns(), start, p, q);
        counts_only_grow(g.frame_turns(), |x: FrameSystem<F, E>| x.tally, p, q);
    }
}

proof fn encoder_stays_within<F, E>(
    script: Script<F, E>,
    y: EncodeSystem<F, E>,
    seen: Seq<Shared<E>>,
    last: Shared<E>,
)
    requires
        (Member::<F, E>::Encode { script, y }).ready(),
        took_turns((Member::<F, E>::Encode { script, y }), seen),
        forall|j: int| 0 <= j < seen.len() ==> calm(#[trigger] seen[j]),
        calm(last),
    ensures
        ({
            let m = Member::<F, E>::Encode { script, y };
            after_seeing(m, seen).tally().at_most(m.due())
        }),
{
    let all = sight(seen, last);
    let g = seeing(script, all);
    let start = encode_start(g, y.v, y.inbox);
    encoder_follows::<F, E>(script, y, seen, all);
    all_is_calm(seen, last);
    if seen.len() > 0 {
        encoder_runs(g, y.v, y.inbox);
        let q = choose|q: EncodeSystem<F, E>| #[trigger]
            leads_to(g.encode_turns(), start, q) && encode_done(script, y.inbox, q);
        let n = (seen.len() - 1) as nat;
        let p = after_turns(g.encode_turns(), n, start);
        on_the_way(g.encode_turns(), start, p, q);
        counts_only_grow(g.encode_turns(), |x: EncodeSystem<F, E>| x.tally, p, q);
    }
}

proof fn fanout_stays_within<F, E>(
    script: Script<F, E>,
    y: FanoutSystem<F>,
    seen: Seq<Shared<E>>,
    last: Shared<E>,
)
    requires
        (Member::<F, E>::Fanout { script, y }).ready(),
        took_turns((Member::<F, E>::Fanout { script, y }), seen),
        forall|j: int| 0 <= j < seen.len() ==> calm(#[trigger] seen[j]),
        calm(last),
    ensures
        ({
            let m = Member::<F, E>::Fanout { script, y };
            after_seeing(m, seen).tally().at_most(m.due())
        }),
{
    let all = sight(seen, last);
    let g = seeing(script, all);
    let start = fanout_start(g, y.v, y.inbox);
    fanout_follows::<F, E>(script, y, seen, all);
    all_is_calm(seen, last);
    if seen.len() > 0 {
        fanout_runs(g, y.v, y.inbox);
        let q = choose|q: FanoutSystem<F>| #[trigger]
            leads_to(g.fanout_turns(), start, q) && fanout_done(y.v.to, y.inbox, q);
        let n = (seen.len() - 1) as nat;
        let p = after_turns(g.fanout_turns(), n, start);
        on_the_way(g.fanout_turns(), start, p, q);
        counts_only_grow(g.fanout_turns(), |x: FanoutSystem<F>| x.tally, p, q);
    }
}

proof fn mux_stays_within<F, E>(
    clock: MuxClock,
    y: MuxSystem,
    seen: Seq<Shared<E>>,
    last: Shared<E>,
)
    requires
        (Member::<F, E>::Mux { clock, y }).ready(),
        took_turns((Member::<F, E>::Mux { clock, y }), seen),
        forall|j: int| 0 <= j < seen.len() ==> calm(#[trigger] seen[j]),
        calm(last),
    ensures
        ({
            let m = Member::<F, E>::Mux { clock, y };
            after_seeing(m, seen).tally().at_most(m.due())
        }),
{
    let all = sight(seen, last);
    let g = MuxScript { clock, shared: all };
    let start = mux_start(g, y.v.reports, y.inboxes);
    mux_follows::<F, E>(clock, y, seen, all);
    all_is_calm(seen, last);
    if seen.len() > 0 {
        mux_runs(g, y.v.reports, y.inboxes);
        let q = choose|q: MuxSystem| #[trigger]
            leads_to(g.turns(), start, q) && mux_done(y.inboxes, q);
        let n = (seen.len() - 1) as nat;
        let p = after_turns(g.turns(), n, start);
        on_the_way(g.turns(), start, p, q);
        counts_only_grow(g.turns(), |x: MuxSystem| x.tally, p, q);
    }
}

/// Whatever a worker saw, as long as nobody was stopped: it never adds more to the
/// counters than it is to add in all.
pub proof fn member_stays_within<F, E>(m: Member<F, E>, seen: Seq<Shared<E>>, last: Shared<E>)
    requires
        m.ready(),
        took_turns(m, seen),
        forall|j: int| 0 <= j < seen.len() ==> calm(#[trigger] seen[j]),
        calm(last),
        !last.budget.full(),
    ensures
        after_seeing(m, seen).tally().at_most(m.due()),
{
    match m {
        Member::Source { supply, y } => source_stays_within(supply, y, seen, last),
        Member::Copy { script, y } => copier_stays_within(script, y, seen, last),
        Member::Decode { script, y } => decoder_stays_within(script, y, seen, last),
        Member::Frame { script, y } => stage_stays_within(script, y, seen, last),
        Member::Encode { script, y } => encoder_stays_within(script, y, seen, last),
        Member::Fanout { script, y } => fanout_stays_within(script, y, seen, last),
        Member::Mux { clock, y } => mux_stays_within::<F, E>(clock, y, seen, last),
    }
}

} // verus!
