//! One thread or many: a whole output counts the same, and shows its sink equally many
//! frames; and many threads leave nothing in their queues.

use crate::crew::{handed_on, Member};
use crate::crew_run::{burdens, dues, everybody_adds_up, Crew};
use crate::decode_stage::DecodeStage;
use crate::encode_stage::EncodeStage;
use crate::frame_stage::FrameWorkerView;
use crate::output::{OutputCommand, OutputPhase, OutputReply, OutputView};
use crate::scripted::{leads_to, Tally, World};
use crate::serial::SerialCommand;
use crate::source_stage::SourceView;
use crate::staged::{Downstream, Shared};
use crate::stats::ExecutorStats;
use crate::sums::{
    load, nothing_sums_up, nothing_totals, sum, sums_add_up, sums_join, total, total_updated,
    totals_join, weight,
};
use crate::topology::{frame_workers, stage_extras, track_workers, PlanTrackView, WorkerRole};
use crate::whole_mux::{frames_each, frames_in, frames_in_all, mux_idle, MuxClock, Queued};
use crate::whole_serial::{
    fresh, serial_done, serial_output_runs, serial_start, worlds_after, Feed, OutputScript,
    SerialSystem, TrackScript,
};
use crate::whole_sinks::{copy_idle, encode_idle, fanout_idle};
use crate::whole_source::{source_idle, Supply};
use crate::whole_staged::{decode_idle, extras_have_places, frame_idle, sizes_of, stage_out};
use crate::whole_track::{
    all_frames, arrivals, frames_for_sink, frames_reach_the_end, last_or_channel,
    serial_track_counts, staged_track_counts, stages_tally, track_tally, untouched, workers_tally,
};
use crate::workers::{CopyStage, FanoutStage};
use vstd::prelude::*;

verus! {

/// The workers of a track, before they start; which of them it needs is the track's
/// matter.
#[verifier::reject_recursive_types(F)]
pub struct TrackWorkers<F> {
    pub copier: CopyStage,
    pub decoder: DecodeStage,
    pub stage: spec_fn(int) -> FrameWorkerView<F>,
    pub encoder: EncodeStage,
    pub forwarder: FanoutStage,
}

/// The loop that feeds the sink of an output, and what will reach the queue of each
/// track.
pub struct SinkLoop {
    pub clock: MuxClock,
    pub reports: bool,
    pub queues: Seq<Seq<Queued>>,
}

/// The workers of an output: one for each source, those of each track, and the loop
/// that feeds the sink, unless each track has a sink of its own.
#[verifier::reject_recursive_types(F)]
pub struct Team<F> {
    pub source: spec_fn(int) -> SourceView,
    pub track: spec_fn(int) -> TrackWorkers<F>,
    /// Where the last worker of each track delivers.
    pub to: spec_fn(int) -> Downstream,
    pub sink: Option<SinkLoop>,
}

/// The frames that the encoder of a track, or the worker in its place, receives.
pub open spec fn last_frames<F, E>(g: TrackScript<F, E>) -> Seq<F> {
    g.script.reaching(g.track.stages.len() as int, all_frames(g.script, g.feed))
}

/// The workers of the frame stages of a track, from stage `k` on, each with what the
/// worker before it hands on.
pub open spec fn stage_members<F, E>(g: TrackScript<F, E>, w: TrackWorkers<F>, k: int) -> Seq<
    Member<F, E>,
>
    decreases g.track.stages.len() - k,
{
    if k < 0 || k >= g.track.stages.len() {
        Seq::empty()
    } else {
        seq![
            Member::Frame {
                script: g.script,
                y: frame_idle(
                    (w.stage)(k),
                    k,
                    g.script.reaching(k, all_frames(g.script, g.feed)),
                ),
            },
        ] + stage_members(g, w, k + 1)
    }
}

/// The worker that decodes, where there are packets to decode.
pub open spec fn first_members<F, E>(g: TrackScript<F, E>, w: TrackWorkers<F>) -> Seq<
    Member<F, E>,
> {
    match g.feed {
        Feed::Packets(packets) => seq![
            Member::Decode { script: g.script, y: decode_idle(w.decoder, packets) },
        ],
        Feed::Frames(_) => Seq::empty(),
    }
}

/// The worker that encodes, or that hands frames on where nothing else does.
pub open spec fn last_members<F, E>(g: TrackScript<F, E>, w: TrackWorkers<F>) -> Seq<
    Member<F, E>,
> {
    if g.track.has_encoder {
        seq![Member::Encode { script: g.script, y: encode_idle(w.encoder, last_frames(g)) }]
    } else if g.track.stages.len() == 0 && g.feed is Frames {
        seq![Member::Fanout { script: g.script, y: fanout_idle(w.forwarder, last_frames(g)) }]
    } else {
        Seq::empty()
    }
}

/// The workers of a track, in the order data flows.
pub open spec fn track_members<F, E>(g: TrackScript<F, E>, w: TrackWorkers<F>) -> Seq<
    Member<F, E>,
> {
    if g.track.copy {
        seq![
            Member::Copy {
                script: g.script,
                y: copy_idle(w.copier, sizes_of(g.feed->Packets_0)),
            },
        ]
    } else {
        first_members(g, w) + stage_members(g, w, 0) + last_members(g, w)
    }
}

/// The workers of the first `n` tracks.
pub open spec fn tracks_members<F, E>(o: OutputScript<F, E>, team: Team<F>, n: int) -> Seq<
    Member<F, E>,
>
    decreases n,
{
    if n <= 0 {
        Seq::empty()
    } else {
        tracks_members(o, team, n - 1) + track_members(o.tracks[n - 1], (team.track)(n - 1))
    }
}

/// The workers of the sources.
pub open spec fn source_members<F, E>(o: OutputScript<F, E>, team: Team<F>) -> Seq<Member<F, E>> {
    Seq::new(
        o.supplies.len(),
        |s: int| Member::Source { supply: o.supplies[s], y: source_idle((team.source)(s)) },
    )
}

/// The loop that feeds the sink, if there is one.
pub open spec fn sink_members<F, E>(team: Team<F>) -> Seq<Member<F, E>> {
    match team.sink {
        Some(l) => seq![Member::Mux { clock: l.clock, y: mux_idle(l.reports, l.queues) }],
        None => Seq::empty(),
    }
}

/// All workers of an output.
pub open spec fn all_members<F, E>(o: OutputScript<F, E>, team: Team<F>) -> Seq<Member<F, E>> {
    source_members(o, team) + tracks_members(o, team, o.tracks.len() as int) + sink_members(team)
}

/// The streams that the routes of a source take: those of its tracks, in order.
pub open spec fn routes_of<F, E>(o: OutputScript<F, E>, s: int, n: int) -> Seq<u32>
    decreases n,
{
    if n <= 0 {
        Seq::empty()
    } else if o.tracks[n - 1].source == s {
        routes_of(o, s, n - 1).push(o.tracks[n - 1].stream)
    } else {
        routes_of(o, s, n - 1)
    }
}

/// The workers of a track stand where it has them: each delivers to the next, the last
/// to the sink, and extra frames have a place.
pub open spec fn track_in_place<F, E>(
    g: TrackScript<F, E>,
    to: Downstream,
    w: TrackWorkers<F>,
) -> bool {
    let n = g.track.stages.len() as int;
    let direct = n == 0 && !g.track.has_encoder;
    &&& w.decoder.to == last_or_channel(direct, to)
    &&& w.forwarder.to == to
    &&& forall|k: int|
        0 <= k < n ==> (#[trigger] (w.stage)(k)).to == last_or_channel(
            k + 1 == n && !g.track.has_encoder,
            to,
        ) && extras_have_places(g.script, k, (w.stage)(k).extras_base)
}

/// The worker of a source has a route to each of its tracks, and does not stay at the
/// end of the source.
pub open spec fn source_in_place<F, E>(o: OutputScript<F, E>, s: int, v: SourceView) -> bool {
    &&& v.frames == (o.supplies[s] is Frames)
    &&& v.routes == routes_of(o, s, o.tracks.len() as int)
    &&& v.phase is Top
    &&& !v.park_at_eof
    &&& !v.ended
}

/// What reaches the sink: through the queues of the tracks, each with the frames of its
/// track, or straight where each track has a sink of its own, which takes no extra
/// frames.
pub open spec fn sink_in_place<F, E>(o: OutputScript<F, E>, team: Team<F>) -> bool {
    match team.sink {
        Some(l) => {
            &&& l.clock.wf()
            &&& l.queues.len() == o.tracks.len()
            &&& forall|t: int|
                0 <= t < o.tracks.len() ==> (#[trigger] (team.to)(t)) is Aggregate && frames_in(
                    l.queues[t],
                ) == frames_for_sink(o.tracks[t])
        },
        None => forall|t: int|
            0 <= t < o.tracks.len() ==> (#[trigger] (team.to)(t)) is Independent && arrivals(
                o.tracks[t],
            ).1 == 0,
    }
}

/// Every worker stands where the output has it.
pub open spec fn in_place<F, E>(o: OutputScript<F, E>, team: Team<F>) -> bool {
    &&& forall|s: int|
        0 <= s < o.supplies.len() ==> source_in_place(o, s, #[trigger] (team.source)(s))
    &&& forall|t: int|
        0 <= t < o.tracks.len() ==> track_in_place(
            o.tracks[t],
            (team.to)(t),
            #[trigger] (team.track)(t),
        )
    &&& sink_in_place(o, team)
}

/// Whether a worker does what the plan of a track has it do.
pub open spec fn does<F, E>(m: Member<F, E>, role: WorkerRole) -> bool {
    match role {
        WorkerRole::Copy => m is Copy,
        WorkerRole::Decode { .. } => m is Decode,
        WorkerRole::Frame { stage, extras_base } => m is Frame && m->Frame_y.k == stage
            && m->Frame_y.v.extras_base == extras_base,
        WorkerRole::Encode => m is Encode,
        WorkerRole::Forward => m is Fanout,
    }
}

/// Where a worker delivers.
pub open spec fn delivers<F, E>(m: Member<F, E>) -> Downstream {
    match m {
        Member::Copy { y, .. } => y.v.to,
        Member::Decode { y, .. } => y.stage.to,
        Member::Frame { y, .. } => y.v.to,
        Member::Encode { y, .. } => y.v.to,
        Member::Fanout { y, .. } => y.v.to,
        _ => Downstream::Channel,
    }
}

/// A track as its plan has it.
pub open spec fn planned<F, E>(g: TrackScript<F, E>, p: PlanTrackView) -> bool {
    &&& p.frames == (g.feed is Frames)
    &&& p.copy == g.track.copy
    &&& p.has_decoder == g.track.has_decoder
    &&& p.stages.len() == g.track.stages.len()
    &&& p.has_encoder == g.track.has_encoder
}

/// The workers of the frame stages, one for each.
pub(crate) proof fn stages_follow_the_plan<F, E>(g: TrackScript<F, E>, w: TrackWorkers<F>, k: int)
    requires
        0 <= k <= g.track.stages.len(),
    ensures
        stage_members(g, w, k).len() == g.track.stages.len() - k,
        forall|i: int|
            k <= i < g.track.stages.len() ==> #[trigger] stage_members(g, w, k)[i - k]
                == (Member::Frame {
                script: g.script,
                y: frame_idle(
                    (w.stage)(i),
                    i,
                    g.script.reaching(i, all_frames(g.script, g.feed)),
                ),
            }),
    decreases g.track.stages.len() - k,
{
    if k < g.track.stages.len() {
        stages_follow_the_plan(g, w, k + 1);
        let rest = stage_members(g, w, k + 1);
        assert forall|i: int| k <= i < g.track.stages.len() implies #[trigger] stage_members(
            g,
            w,
            k,
        )[i - k] == (Member::Frame {
            script: g.script,
            y: frame_idle(
                (w.stage)(i),
                i,
                g.script.reaching(i, all_frames(g.script, g.feed)),
            ),
        }) by {
            if i > k {
                assert(stage_members(g, w, k)[i - k] == rest[i - (k + 1)]);
            }
        }
    }
}

/// The workers of a track are those that the plan of the track asks for, one for one and
/// in its order; and it is the one at the end of the plan that delivers to the sink.
pub proof fn team_follows_the_plan<F, E>(
    g: TrackScript<F, E>,
    to: Downstream,
    w: TrackWorkers<F>,
    index: u32,
    p: PlanTrackView,
)
    requires
        g.wf(),
        planned(g, p),
        track_in_place(g, to, w),
        w.copier.to == to,
        w.encoder.to == to,
        forall|k: int|
            0 <= k < g.track.stages.len() ==> (#[trigger] (w.stage)(k)).extras_base
                == stage_extras(p, k),
    ensures
        track_workers(index, p) is Ok,
        ({
            let plan = track_workers(index, p)->Ok_0;
            let members = track_members(g, w);
            &&& members.len() == plan.len()
            &&& forall|i: int|
                0 <= i < plan.len() ==> does(members[i], (#[trigger] plan[i]).role) && delivers(
                    members[i],
                ) == last_or_channel(plan[i].terminal, to)
        }),
{
    let plan = track_workers(index, p)->Ok_0;
    let members = track_members(g, w);
    if !g.track.copy {
        let n = g.track.stages.len() as int;
        let a = first_members(g, w);
        let b = stage_members(g, w, 0);
        let c = last_members(g, w);
        stages_follow_the_plan(g, w, 0);
        let rest = frame_workers(index, p);
        let m = a.len() as int;
        assert forall|i: int| 0 <= i < plan.len() implies does(
            members[i],
            (#[trigger] plan[i]).role,
        ) && delivers(members[i]) == last_or_channel(plan[i].terminal, to) by {
            if i < m {
                assert(members[i] == a[i]);
            } else if i < m + n {
                let k = i - m;
                assert(members[i] == b[k - 0]);
                assert((w.stage)(k).extras_base == stage_extras(p, k));
                assert(plan[i] == rest[k]);
            } else {
                assert(members[i] == c[i - m - n]);
                assert(plan[i] == rest[i - m]);
            }
        }
    }
}

/// The frames that a worker has handed on.
pub open spec fn frames_out<F, E>(m: Member<F, E>) -> Seq<F> {
    match m {
        Member::Decode { y, .. } => y.out,
        Member::Frame { y, .. } => y.out,
        Member::Fanout { y, .. } => y.out,
        _ => Seq::empty(),
    }
}

/// The frames that a worker has still to receive.
pub open spec fn frames_to_come<F, E>(m: Member<F, E>) -> Seq<F> {
    match m {
        Member::Frame { y, .. } => y.inbox,
        Member::Encode { y, .. } => y.inbox,
        Member::Fanout { y, .. } => y.inbox,
        _ => Seq::empty(),
    }
}

/// Each worker of a track receives just what the one before it hands on, in order.
pub proof fn workers_pass_on<F, E>(
    g: TrackScript<F, E>,
    w: TrackWorkers<F>,
    i: int,
    end: Member<F, E>,
)
    requires
        g.wf(),
        0 <= i,
        i + 1 < track_members(g, w).len(),
        handed_on(track_members(g, w)[i], end),
    ensures
        frames_out(end) == frames_to_come(track_members(g, w)[i + 1]),
{
    let members = track_members(g, w);
    let n = g.track.stages.len() as int;
    let a = first_members(g, w);
    let b = stage_members(g, w, 0);
    let c = last_members(g, w);
    let m = a.len() as int;
    stages_follow_the_plan(g, w, 0);
    let all = all_frames(g.script, g.feed);
    assert(g.script.reaching(0, all) == all);
    // What worker `i` hands on is what reaches the stage behind it.
    let k = i + 1 - m;
    if i < m {
        assert(members[i] == a[i]);
    } else {
        assert(members[i] == b[(k - 1) - 0]);
        assert(g.script.reaching(k, all) == stage_out(
            g.script,
            k - 1,
            g.script.reaching(k - 1, all),
        ));
    }
    if k < n {
        assert(members[i + 1] == b[k - 0]);
    } else {
        assert(members[i + 1] == c[k - n]);
    }
}

pub(crate) proof fn route_of_a_track<F, E>(o: OutputScript<F, E>, t: int, n: int)
    requires
        0 <= t < n,
    ensures
        ({
            let s = o.tracks[t].source as int;
            let r = routes_of(o, s, t).len() as int;
            &&& r < routes_of(o, s, n).len()
            &&& routes_of(o, s, n)[r] == o.tracks[t].stream
        }),
    decreases n,
{
    if t < n - 1 {
        route_of_a_track(o, t, n - 1);
    }
}

/// Each track receives just what its source sends it: the packets of its stream, or
/// every frame.
pub proof fn sources_pass_on<F, E>(
    o: OutputScript<F, E>,
    team: Team<F>,
    t: int,
    end: Member<F, E>,
)
    requires
        o.wf(),
        in_place(o, team),
        0 <= t < o.tracks.len(),
        handed_on(source_members(o, team)[o.tracks[t].source as int], end),
    ensures
        ({
            let g = o.tracks[t];
            let r = routes_of(o, g.source as int, t).len() as int;
            &&& end is Source
            &&& r < end->Source_y.sent.len()
            &&& match g.feed {
                Feed::Packets(packets) => end->Source_y.sent[r] == sizes_of(packets),
                Feed::Frames(frames) => end->Source_y.sent[r].len() == frames.len(),
            }
        }),
{
    let g = o.tracks[t];
    let s = g.source as int;
    let n = o.tracks.len() as int;
    assert(g.wf() && g.fed_by(o.supplies[s]));
    assert(source_in_place(o, s, (team.source)(s)));
    route_of_a_track(o, t, n);
    if o.supplies[s] is Frames {
        every_frame_is_shared(o.supplies[s], g.stream, o.supplies[s].len());
    }
}

proof fn every_frame_is_shared<F>(supply: Supply<F>, stream: u32, n: nat)
    requires
        supply is Frames,
    ensures
        supply.share(stream, n).len() == n,
    decreases n,
{
    if n > 0 {
        every_frame_is_shared(supply, stream, (n - 1) as nat);
    }
}

pub open spec fn all_ready<F, E>(members: Seq<Member<F, E>>) -> bool {
    forall|i: int| 0 <= i < members.len() ==> (#[trigger] members[i]).ready()
}

proof fn ready_together<F, E>(a: Seq<Member<F, E>>, b: Seq<Member<F, E>>)
    requires
        all_ready(a),
        all_ready(b),
    ensures
        all_ready(a + b),
{
    assert forall|i: int| 0 <= i < (a + b).len() implies (#[trigger] (a + b)[i]).ready() by {
        if i < a.len() {
            assert(a[i].ready());
        } else {
            assert(b[i - a.len()].ready());
        }
    }
}

proof fn dues_join<F, E>(a: Seq<Member<F, E>>, b: Seq<Member<F, E>>)
    ensures
        sum(dues(a + b)) == sum(dues(a)).plus(sum(dues(b))),
        total(burdens(a + b)) == total(burdens(a)) + total(burdens(b)),
{
    assert(dues(a + b) =~= dues(a) + dues(b));
    sums_join(dues(a), dues(b));
    assert(burdens(a + b) =~= burdens(a) + burdens(b));
    totals_join(burdens(a), burdens(b));
}

proof fn one_alone<F, E>(m: Member<F, E>)
    ensures
        sum(dues(seq![m])) == m.due(),
        total(burdens(seq![m])) == m.burden(),
{
    let d = dues(seq![m]);
    assert(d.drop_last() =~= Seq::empty());
    assert(d.last() == m.due());
    assert(sum(d.drop_last()) == Tally::none());
    assert(sum(d) == Tally::none().plus(d.last()));
    assert(sum(d) =~= m.due());
    let b = burdens(seq![m]);
    assert(b.drop_last() =~= Seq::empty());
    assert(b.last() == m.burden());
    assert(total(b.drop_last()) == 0);
}

proof fn nobody<F, E>()
    ensures
        sum(dues(Seq::<Member<F, E>>::empty())) == Tally::none(),
        total(burdens(Seq::<Member<F, E>>::empty())) == 0,
{
    assert(dues(Seq::<Member<F, E>>::empty()) =~= Seq::empty());
    assert(burdens(Seq::<Member<F, E>>::empty()) =~= Seq::empty());
}

proof fn stages_are_due<F, E>(g: TrackScript<F, E>, to: Downstream, w: TrackWorkers<F>, k: int)
    requires
        track_in_place(g, to, w),
        0 <= k <= g.track.stages.len(),
    ensures
        all_ready(stage_members(g, w, k)),
        sum(dues(stage_members(g, w, k))) == stages_tally(g, to, k),
        total(burdens(stage_members(g, w, k))) == 0,
    decreases g.track.stages.len() - k,
{
    if k < g.track.stages.len() {
        let m = Member::<F, E>::Frame {
            script: g.script,
            y: frame_idle(
                (w.stage)(k),
                k,
                g.script.reaching(k, all_frames(g.script, g.feed)),
            ),
        };
        assert(extras_have_places(g.script, k, (w.stage)(k).extras_base));
        stages_are_due(g, to, w, k + 1);
        let rest = stage_members(g, w, k + 1);
        assert(all_ready(seq![m]));
        ready_together(seq![m], rest);
        one_alone(m);
        dues_join(seq![m], rest);
    } else {
        nobody::<F, E>();
    }
}

/// The bytes that reach a track from its source.
pub open spec fn track_weight<F, E>(o: OutputScript<F, E>, t: int) -> int {
    let supply = o.supplies[o.tracks[t].source as int];
    weight(supply.share(o.tracks[t].stream, supply.len()))
}

pub(crate) proof fn frames_weigh_nothing<F>(supply: Supply<F>, stream: u32, n: nat)
    requires
        supply is Frames,
    ensures
        weight(supply.share(stream, n)) == 0,
    decreases n,
{
    if n > 0 {
        frames_weigh_nothing(supply, stream, (n - 1) as nat);
        let before = supply.share(stream, (n - 1) as nat);
        assert(supply.share(stream, n).drop_last() =~= before);
    }
}

/// The workers of a track are ready, and add together what the track's workers add; and
/// they take out of the queues what reaches the track.
proof fn track_is_due<F, E>(o: OutputScript<F, E>, t: int, to: Downstream, w: TrackWorkers<F>)
    requires
        o.wf(),
        0 <= t < o.tracks.len(),
        track_in_place(o.tracks[t], to, w),
    ensures
        all_ready(track_members(o.tracks[t], w)),
        sum(dues(track_members(o.tracks[t], w))) == workers_tally(o.tracks[t], to),
        total(burdens(track_members(o.tracks[t], w))) == -track_weight(o, t),
{
    let g = o.tracks[t];
    let supply = o.supplies[g.source as int];
    assert(g.wf() && g.fed_by(supply));
    if g.feed is Frames {
        frames_weigh_nothing(supply, g.stream, supply.len());
    }
    if g.track.copy {
        let m = Member::<F, E>::Copy {
            script: g.script,
            y: copy_idle(w.copier, sizes_of(g.feed->Packets_0)),
        };
        assert(all_ready(seq![m]));
        one_alone(m);
    } else {
        let n = g.track.stages.len() as int;
        let a = first_members(g, w);
        let b = stage_members(g, w, 0);
        let c = last_members(g, w);
        stages_are_due(g, to, w, 0);
        nobody::<F, E>();
        match g.feed {
            Feed::Packets(packets) => {
                one_alone(
                    Member::<F, E>::Decode {
                        script: g.script,
                        y: decode_idle(w.decoder, packets),
                    },
                );
            },
            Feed::Frames(_) => {},
        }
        if g.track.has_encoder {
            one_alone(
                Member::<F, E>::Encode {
                    script: g.script,
                    y: encode_idle(w.encoder, last_frames(g)),
                },
            );
        } else if n == 0 && g.feed is Frames {
            one_alone(
                Member::<F, E>::Fanout {
                    script: g.script,
                    y: fanout_idle(w.forwarder, last_frames(g)),
                },
            );
        }
        frames_reach_the_end(g.script, 0, n, all_frames(g.script, g.feed));
        assert(last_frames(g) == arrivals(g).0);
        assert(all_ready(a) && all_ready(c));
        ready_together(a, b);
        ready_together(a + b, c);
        dues_join(a, b);
        dues_join(a + b, c);
    }
}

/// What the workers of each track add.
pub open spec fn worker_tallies<F, E>(o: OutputScript<F, E>, team: Team<F>, n: int) -> Seq<Tally> {
    Seq::new(n as nat, |t: int| workers_tally(o.tracks[t], (team.to)(t)))
}

/// The bytes that reach the first `n` tracks.
pub open spec fn weights<F, E>(o: OutputScript<F, E>, n: int) -> Seq<int> {
    Seq::new(n as nat, |t: int| track_weight(o, t))
}

proof fn tracks_are_due<F, E>(o: OutputScript<F, E>, team: Team<F>, n: int)
    requires
        o.wf(),
        in_place(o, team),
        0 <= n <= o.tracks.len(),
    ensures
        all_ready(tracks_members(o, team, n)),
        sum(dues(tracks_members(o, team, n))) == sum(worker_tallies(o, team, n)),
        total(burdens(tracks_members(o, team, n))) == -total(weights(o, n)),
    decreases n,
{
    if n > 0 {
        tracks_are_due(o, team, n - 1);
        let t = n - 1;
        let w = (team.track)(t);
        track_is_due(o, t, (team.to)(t), w);
        let before = tracks_members(o, team, n - 1);
        let here = track_members(o.tracks[t], w);
        ready_together(before, here);
        dues_join(before, here);
        assert(worker_tallies(o, team, n).drop_last() =~= worker_tallies(o, team, n - 1));
        assert(weights(o, n).drop_last() =~= weights(o, n - 1));
    } else {
        nobody::<F, E>();
    }
}

/// The bytes that each source puts into the queues of the first `n` tracks.
pub open spec fn source_loads<F, E>(o: OutputScript<F, E>, n: int) -> Seq<int> {
    Seq::new(
        o.supplies.len(),
        |s: int| load(o.supplies[s].shares(routes_of(o, s, n), o.supplies[s].len(), 0)),
    )
}

proof fn routes_are_few<F, E>(o: OutputScript<F, E>, s: int, n: int)
    requires
        0 <= n,
    ensures
        routes_of(o, s, n).len() <= n,
    decreases n,
{
    if n > 0 {
        routes_are_few(o, s, n - 1);
    }
}

/// What the sources put into the queues is what reaches the tracks.
proof fn queues_carry<F, E>(o: OutputScript<F, E>, n: int)
    requires
        o.wf(),
        0 <= n <= o.tracks.len(),
    ensures
        total(source_loads(o, n)) == total(weights(o, n)),
    decreases n,
{
    if n == 0 {
        assert forall|s: int| 0 <= s < o.supplies.len() implies #[trigger] source_loads(o, 0)[s]
            == 0 by {
            let ways = o.supplies[s].shares(routes_of(o, s, 0), o.supplies[s].len(), 0);
            assert(ways.len() == 0);
        }
        nothing_totals(source_loads(o, 0));
    } else {
        queues_carry(o, n - 1);
        let t = n - 1;
        let g = o.tracks[t];
        let src = g.source as int;
        assert(g.wf());
        let before = source_loads(o, n - 1);
        let x = before[src] + track_weight(o, t);
        assert forall|s: int| 0 <= s < o.supplies.len() implies #[trigger] source_loads(o, n)[s]
            == before.update(src, x)[s] by {
            let supply = o.supplies[s];
            let old = supply.shares(routes_of(o, s, n - 1), supply.len(), 0);
            let new = supply.shares(routes_of(o, s, n), supply.len(), 0);
            if s == src {
                assert(new.drop_last() =~= old);
                assert(new.last() == supply.share(g.stream, supply.len()));
            }
        }
        assert(source_loads(o, n) =~= before.update(src, x));
        total_updated(before, src, x);
        assert(weights(o, n).drop_last() =~= weights(o, n - 1));
    }
}

/// The workers of the sources are ready, and add together what reading counts for.
proof fn sources_are_due<F, E>(o: OutputScript<F, E>, team: Team<F>)
    requires
        o.wf(),
        in_place(o, team),
    ensures
        all_ready(source_members(o, team)),
        dues(source_members(o, team)) == o.unread(Seq::new(o.supplies.len(), |i: int| 0nat)),
        total(burdens(source_members(o, team))) == total(weights(o, o.tracks.len() as int)),
{
    let n = o.tracks.len() as int;
    let members = source_members(o, team);
    assert forall|s: int| 0 <= s < members.len() implies (#[trigger] members[s]).ready() by {
        assert(source_in_place(o, s, (team.source)(s)));
        routes_are_few(o, s, n);
    }
    assert(dues(members) =~= o.unread(Seq::new(o.supplies.len(), |i: int| 0nat)));
    assert forall|s: int| 0 <= s < members.len() implies #[trigger] burdens(members)[s]
        == source_loads(o, n)[s] by {
        assert(source_in_place(o, s, (team.source)(s)));
    }
    assert(burdens(members) =~= source_loads(o, n));
    queues_carry(o, n);
}

/// What reaches the sink through the queue of each track.
pub open spec fn sink_tallies<F, E>(o: OutputScript<F, E>, team: Team<F>) -> Seq<Tally> {
    Seq::new(
        o.tracks.len(),
        |t: int|
            Tally::of_written(
                if (team.to)(t) is Independent {
                    0
                } else {
                    frames_for_sink(o.tracks[t])
                },
            ),
    )
}

proof fn written_in_all(each: Seq<int>, tallies: Seq<Tally>)
    requires
        each.len() == tallies.len(),
        forall|t: int|
            0 <= t < each.len() ==> #[trigger] each[t] >= 0 && tallies[t] == Tally::of_written(
                each[t] as nat,
            ),
    ensures
        total(each) >= 0,
        sum(tallies) == Tally::of_written(total(each) as nat),
    decreases each.len(),
{
    if each.len() > 0 {
        written_in_all(each.drop_last(), tallies.drop_last());
        assert(each.last() >= 0 && tallies.last() == Tally::of_written(each.last() as nat));
        assert(sum(tallies) =~= Tally::of_written(total(each) as nat));
    } else {
        assert(sum(tallies) =~= Tally::of_written(0));
    }
}

proof fn sink_is_due<F, E>(o: OutputScript<F, E>, team: Team<F>)
    requires
        o.wf(),
        in_place(o, team),
    ensures
        all_ready(sink_members::<F, E>(team)),
        sum(dues(sink_members::<F, E>(team))) == sum(sink_tallies(o, team)),
        total(burdens(sink_members::<F, E>(team))) == 0,
{
    let tallies = sink_tallies(o, team);
    match team.sink {
        Some(l) => {
            let m = Member::<F, E>::Mux { clock: l.clock, y: mux_idle(l.reports, l.queues) };
            one_alone(m);
            let each = frames_each(l.queues);
            assert forall|t: int| 0 <= t < each.len() implies #[trigger] each[t] >= 0
                && tallies[t] == Tally::of_written(each[t] as nat) by {
                assert((team.to)(t) is Aggregate);
            }
            written_in_all(each, tallies);
        },
        None => {
            nobody::<F, E>();
            assert forall|t: int| 0 <= t < tallies.len() implies #[trigger] tallies[t]
                == Tally::none() by {
                assert((team.to)(t) is Independent);
            }
            nothing_sums_up(tallies);
        },
    }
}

/// What each track counts for, once its source is read.
pub open spec fn track_tallies<F, E>(o: OutputScript<F, E>) -> Seq<Tally> {
    Seq::new(o.tracks.len(), |t: int| track_tally(o.tracks[t]))
}

/// All workers of an output together add what the output counts for, and leave nothing
/// in the queues.
pub proof fn team_is_due<F, E>(o: OutputScript<F, E>, team: Team<F>)
    requires
        o.wf(),
        in_place(o, team),
    ensures
        all_ready(all_members(o, team)),
        sum(dues(all_members(o, team))) == sum(
            o.unread(Seq::new(o.supplies.len(), |i: int| 0nat)),
        ).plus(sum(track_tallies(o))),
        total(burdens(all_members(o, team))) == 0,
{
    let n = o.tracks.len() as int;
    let a = source_members(o, team);
    let b = tracks_members(o, team, n);
    let c = sink_members::<F, E>(team);
    sources_are_due(o, team);
    tracks_are_due(o, team, n);
    sink_is_due(o, team);
    ready_together(a, b);
    ready_together(a + b, c);
    dues_join(a, b);
    dues_join(a + b, c);
    let x = worker_tallies(o, team, n);
    let y = sink_tallies(o, team);
    let z = track_tallies(o);
    assert forall|t: int| 0 <= t < x.len() implies #[trigger] z[t] == x[t].plus(y[t]) by {
        let g = o.tracks[t];
        assert(g.wf());
        if team.sink is Some {
            assert((team.to)(t) is Aggregate);
        } else {
            assert((team.to)(t) is Independent);
        }
        staged_track_counts(g, (team.to)(t));
    }
    sums_add_up(x, y, z);
    let s = sum(dues(a));
    assert(s.plus(sum(x)).plus(sum(y)) =~= s.plus(sum(x).plus(sum(y))));
}

/// On one thread, an output counts for reading its sources and for its tracks.
proof fn serial_is_due<F, E>(o: OutputScript<F, E>, worlds: Seq<World<F>>)
    requires
        o.wf(),
        worlds.len() == o.tracks.len(),
        forall|t: int|
            0 <= t < o.tracks.len() ==> untouched(
                #[trigger] worlds[t],
                o.tracks[t].track.stages.len(),
            ),
    ensures
        o.tally(worlds) == sum(o.unread(Seq::new(o.supplies.len(), |i: int| 0nat))).plus(
            sum(track_tallies(o)),
        ),
        forall|t: int|
            0 <= t < o.tracks.len() ==> (#[trigger] worlds_after(o, worlds)[t]).shown
                == track_tallies(o)[t].written,
{
    let fed = Seq::new(o.tracks.len(), |t: int| 0nat);
    assert forall|t: int| 0 <= t < o.tracks.len() implies #[trigger] o.unfed(fed, worlds)[t]
        == track_tallies(o)[t] && worlds_after(o, worlds)[t].shown
        == track_tallies(o)[t].written by {
        assert(untouched(worlds[t], o.tracks[t].track.stages.len()));
        assert(o.tracks[t].wf());
        serial_track_counts(o.tracks[t], worlds[t]);
    }
    assert(o.unfed(fed, worlds) =~= track_tallies(o));
    assert forall|t: int| 0 <= t < o.tracks.len() implies (#[trigger] worlds_after(
        o,
        worlds,
    )[t]).shown == track_tallies(o)[t].written by {
        assert(o.unfed(fed, worlds)[t] == track_tallies(o)[t]);
    }
}

/// How many frames the sinks of some tracks have been given.
pub open spec fn shown_each<F>(worlds: Seq<World<F>>) -> Seq<int> {
    Seq::new(worlds.len(), |t: int| worlds[t].shown as int)
}

proof fn shown_in_all(each: Seq<int>, tallies: Seq<Tally>)
    requires
        each.len() == tallies.len(),
        forall|t: int| 0 <= t < each.len() ==> #[trigger] each[t] == tallies[t].written,
    ensures
        total(each) == sum(tallies).written,
    decreases each.len(),
{
    if each.len() > 0 {
        shown_in_all(each.drop_last(), tallies.drop_last());
        assert(each.last() == tallies.last().written);
    }
}

proof fn nothing_is_written(tallies: Seq<Tally>)
    requires
        forall|i: int| 0 <= i < tallies.len() ==> (#[trigger] tallies[i]).written == 0,
    ensures
        sum(tallies).written == 0,
    decreases tallies.len(),
{
    if tallies.len() > 0 {
        nothing_is_written(tallies.drop_last());
        assert(tallies.last().written == 0);
    }
}

/// What an output on many threads says once its workers are done: it waits for them to
/// end, finishes its sink and reports the end, and then says this.
pub open spec fn conclusion<E>(output: OutputView, shared: Shared<E>, time: u64) -> OutputCommand<E> {
    let (v1, s1, c1) = output.step(shared, OutputReply::Done, time);
    let (v2, s2, c2) = v1.step(s1, OutputReply::Done, time);
    let (v3, s3, c3) = v2.step(s2, OutputReply::Done, time);
    if c3 is ReportEnd {
        v3.step(s3, OutputReply::Done, time).2
    } else {
        c3
    }
}

/// One thread or many, an output counts the same, and shows its sink equally many frames:
/// whatever its tracks, over whatever sources, of packets or of frames, copied or through
/// whatever decoders, frame stages and encoders, as long as these do the same both times
/// and no sink fails.
///
/// On one thread the output runs to its end. On many, in whatever order the workers take
/// turns, it comes to its end once each of them has, and returns the very same counters.
/// Left out are decoders that say the stream is over before its source does, or that they
/// gave up, and counters at the end of their range.
pub proof fn one_thread_or_many<F, E>(
    o: OutputScript<F, E>,
    worlds: Seq<World<F>>,
    discard_on_failure: bool,
    team: Team<F>,
    shared: Shared<E>,
    order: Seq<int>,
    output: OutputView,
    time: u64,
)
    requires
        o.wf(),
        worlds.len() == o.tracks.len(),
        forall|t: int|
            0 <= t < o.tracks.len() ==> untouched(
                #[trigger] worlds[t],
                o.tracks[t].track.stages.len(),
            ),
        in_place(o, team),
        shared.counters.snapshot_spec() == ExecutorStats::zero(),
        !shared.abort.cancelled,
        shared.abort.first is None,
        !shared.budget.full(),
        (Crew { members: all_members(o, team), shared }).orderly(order),
        (Crew { members: all_members(o, team), shared }).after(order, order.len() as int).through(),
        output.phase == (OutputPhase::Running { independent: team.sink is None }),
    ensures
        ({
            let crew = Crew { members: all_members(o, team), shared };
            let end = crew.after(order, order.len() as int);
            let stats = end.shared.counters.snapshot_spec();
            &&& exists|y: SerialSystem<F, E>| #[trigger]
                leads_to(o.turns(), serial_start(o, worlds, discard_on_failure), y)
                    && y.pump is None && y.command == SerialCommand::<E>::Finished(stats) && total(
                    shown_each(y.worlds),
                ) == stats.frames_written
            &&& conclusion(output, end.shared, time) == OutputCommand::<E>::Finished(stats)
            &&& team.sink is Some ==> end.members.last() is Mux
                && end.members.last()->Mux_y.shown == stats.frames_written
        }),
{
    let crew = Crew { members: all_members(o, team), shared };
    let end = crew.after(order, order.len() as int);
    let stats = end.shared.counters.snapshot_spec();
    team_is_due(o, team);
    assert(crew.ready());
    everybody_adds_up(crew, order);
    serial_is_due(o, worlds);
    assert(o.tally(worlds) == sum(dues(crew.members)));
    serial_counts_and_shows(o, worlds, discard_on_failure);
    output_concludes(output, end.shared, time);
    if team.sink is Some {
        sink_shows_what_is_written(o, team, crew.members);
        let last = crew.members.len() - 1;
        assert(handed_on(crew.members[last], end.members[last]));
    }
}

/// On one thread, an output shows its sink as many frames as it counts as written.
proof fn serial_counts_and_shows<F, E>(
    o: OutputScript<F, E>,
    worlds: Seq<World<F>>,
    discard_on_failure: bool,
)
    requires
        o.wf(),
        worlds.len() == o.tracks.len(),
        forall|t: int|
            0 <= t < o.tracks.len() ==> untouched(
                #[trigger] worlds[t],
                o.tracks[t].track.stages.len(),
            ),
        o.tally(worlds).fits(ExecutorStats::zero()),
    ensures
        ({
            let stats = o.tally(worlds).added(ExecutorStats::zero());
            exists|y: SerialSystem<F, E>| #[trigger]
                leads_to(o.turns(), serial_start(o, worlds, discard_on_failure), y)
                    && y.pump is None && y.command == SerialCommand::<E>::Finished(stats) && total(
                    shown_each(y.worlds),
                ) == stats.frames_written
        }),
{
    assert forall|t: int| 0 <= t < o.tracks.len() implies fresh(
        #[trigger] worlds[t],
        o.tracks[t].track.stages.len(),
    ) by {
        assert(untouched(worlds[t], o.tracks[t].track.stages.len()));
    }
    serial_is_due(o, worlds);
    serial_output_runs(o, worlds, discard_on_failure);
    let y = choose|y: SerialSystem<F, E>| #[trigger]
        leads_to(o.turns(), serial_start(o, worlds, discard_on_failure), y) && serial_done(
            o,
            worlds,
            y,
        );
    let reading = o.unread(Seq::new(o.supplies.len(), |i: int| 0nat));
    nothing_is_written(reading);
    let each = shown_each(y.worlds);
    assert forall|t: int| 0 <= t < each.len() implies #[trigger] each[t] == track_tallies(
        o,
    )[t].written by {
        assert(worlds_after(o, worlds)[t].shown == track_tallies(o)[t].written);
    }
    shown_in_all(each, track_tallies(o));
}

/// An output whose workers are done, with nobody stopped, returns the counters.
proof fn output_concludes<E>(output: OutputView, shared: Shared<E>, time: u64)
    requires
        output.phase is Running,
        shared.abort.first is None,
    ensures
        conclusion(output, shared, time) == OutputCommand::<E>::Finished(
            shared.counters.snapshot_spec(),
        ),
{
}

/// With a loop that feeds the sink, it alone counts frames as written.
proof fn sink_shows_what_is_written<F, E>(
    o: OutputScript<F, E>,
    team: Team<F>,
    members: Seq<Member<F, E>>,
)
    requires
        o.wf(),
        in_place(o, team),
        team.sink is Some,
        members == all_members::<F, E>(o, team),
    ensures
        members.len() > 0,
        members.last() is Mux,
        frames_in_all(members.last()->Mux_y.inboxes) == sum(
            o.unread(Seq::new(o.supplies.len(), |i: int| 0nat)),
        ).plus(sum(track_tallies(o))).written,
{
    let l = team.sink->0;
    let each = frames_each(l.queues);
    nothing_is_written(o.unread(Seq::new(o.supplies.len(), |i: int| 0nat)));
    assert forall|t: int| 0 <= t < each.len() implies #[trigger] each[t] == track_tallies(
        o,
    )[t].written by {
        assert((team.to)(t) is Aggregate);
        let g = o.tracks[t];
        assert(frames_in(l.queues[t]) == frames_for_sink(g));
    }
    shown_in_all(each, track_tallies(o));
    assert(members.last() == Member::<F, E>::Mux {
        clock: l.clock,
        y: mux_idle(l.reports, l.queues),
    });
}

} // verus!
