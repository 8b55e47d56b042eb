//! Which workers an output is split into, and how they are connected.

use crate::error::JobError;
use crate::failure::FailureStage;
use crate::pump::{frame_stage_failure_kind, stage_kind};
use crate::text::{decimal, digits};
use crate::track::FrameStage;
use vstd::prelude::*;
use vstd::string::StringExecFns;

verus! {

/// What the split into workers depends on.
pub struct PlanTrack {
    /// Position of the track's source.
    pub source: usize,
    pub stream: u32,
    /// Whether that source hands out decoded frames.
    pub frames: bool,
    pub copy: bool,
    pub has_decoder: bool,
    pub stages: Vec<FrameStage>,
    pub has_encoder: bool,
    /// Index of the track's first extra stream.
    pub extras_base: u32,
    /// Extra ports of each filter.
    pub extra_counts: Vec<u32>,
}

#[verifier::ext_equal]
pub struct PlanTrackView {
    pub source: usize,
    pub stream: u32,
    pub frames: bool,
    pub copy: bool,
    pub has_decoder: bool,
    pub stages: Seq<FrameStage>,
    pub has_encoder: bool,
    pub extras_base: u32,
    pub extra_counts: Seq<u32>,
}

impl View for PlanTrack {
    type V = PlanTrackView;

    open spec fn view(&self) -> PlanTrackView {
        PlanTrackView {
            source: self.source,
            stream: self.stream,
            frames: self.frames,
            copy: self.copy,
            has_decoder: self.has_decoder,
            stages: self.stages@,
            has_encoder: self.has_encoder,
            extras_base: self.extras_base,
            extra_counts: self.extra_counts@,
        }
    }
}

/// What a worker does.
#[derive(Clone, Copy, Debug, PartialEq, Eq, Structural)]
pub enum WorkerRole {
    Copy,
    /// Decodes; whether it also tells the sink what the frames are.
    Decode { announce: bool },
    /// Runs one frame stage; where its extra frames go, if it has any.
    Frame { stage: usize, extras_base: Option<u32> },
    Encode,
    /// Hands frames on as they are.
    Forward,
}

/// One worker of a track, in the order data flows.
#[derive(Clone, Copy, Debug, PartialEq, Eq, Structural)]
pub struct WorkerPlan {
    pub track: u32,
    pub role: WorkerRole,
    /// Whether it delivers to the sink; otherwise to the next worker.
    pub terminal: bool,
}

/// The number of filters among the first `n` stages.
pub open spec fn filters_before(stages: Seq<FrameStage>, n: int) -> int
    decreases n,
{
    if n <= 0 {
        0
    } else {
        filters_before(stages, n - 1) + (if stages[n - 1] is Filter {
            1int
        } else {
            0int
        })
    }
}

/// The extra ports of the first `n` filters.
pub open spec fn ports_before(counts: Seq<u32>, n: int) -> int
    decreases n,
{
    if n <= 0 || n > counts.len() {
        0
    } else {
        ports_before(counts, n - 1) + counts[n - 1]
    }
}

/// The index under which the extra frames of a stage go to the sink; `None` for
/// a stage without extra ports.
pub open spec fn stage_extras(track: PlanTrackView, stage: int) -> Option<u32> {
    let k = filters_before(track.stages, stage);
    if track.stages[stage] is Filter && 0 <= k < track.extra_counts.len() && track.extra_counts[k]
        > 0 {
        Some((track.extras_base + ports_before(track.extra_counts, k)) as u32)
    } else {
        None
    }
}

/// The workers behind the point where frames are there: one per frame stage,
/// then the encoder; the last one delivers.
pub open spec fn frame_workers(index: u32, track: PlanTrackView) -> Seq<WorkerPlan> {
    let n = track.stages.len();
    let run = Seq::new(
        n,
        |i: int|
            WorkerPlan {
                track: index,
                role: WorkerRole::Frame {
                    stage: i as usize,
                    extras_base: stage_extras(track, i),
                },
                terminal: !track.has_encoder && i + 1 == n,
            },
    );
    if track.has_encoder {
        run.push(WorkerPlan { track: index, role: WorkerRole::Encode, terminal: true })
    } else if n == 0 {
        run.push(WorkerPlan { track: index, role: WorkerRole::Forward, terminal: true })
    } else {
        run
    }
}

/// The workers of a track, or why it cannot be run.
pub open spec fn track_workers(index: u32, track: PlanTrackView) -> Result<
    Seq<WorkerPlan>,
    JobError,
> {
    if track.frames {
        if track.copy {
            Err(JobError::CopyOverFrames)
        } else {
            Ok(frame_workers(index, track))
        }
    } else if track.copy {
        Ok(seq![WorkerPlan { track: index, role: WorkerRole::Copy, terminal: true }])
    } else if !track.has_decoder {
        Err(JobError::NoDecoder)
    } else if track.stages.len() == 0 && !track.has_encoder {
        Ok(
            seq![
                WorkerPlan {
                    track: index,
                    role: WorkerRole::Decode { announce: true },
                    terminal: true,
                },
            ],
        )
    } else {
        Ok(
            seq![
                WorkerPlan {
                    track: index,
                    role: WorkerRole::Decode { announce: false },
                    terminal: false,
                },
            ] + frame_workers(index, track),
        )
    }
}

/// The extra streams of a track can all be numbered.
pub open spec fn extras_fit(track: PlanTrackView) -> bool {
    forall|k: int|
        0 <= k <= track.extra_counts.len() ==> track.extras_base + #[trigger] ports_before(
            track.extra_counts,
            k,
        ) <= u32::MAX
}

pub open spec fn plan_result(r: Result<Vec<WorkerPlan>, JobError>) -> Result<
    Seq<WorkerPlan>,
    JobError,
> {
    match r {
        Ok(list) => Ok(list@),
        Err(e) => Err(e),
    }
}

fn plan_frames(index: u32, track: &PlanTrack, out: &mut Vec<WorkerPlan>)
    requires
        extras_fit(track@),
    ensures
        final(out)@ == old(out)@ + frame_workers(index, track@),
{
    let n: usize = track.stages.len();
    let ghost base = out@;
    let ghost all = frame_workers(index, track@);
    let mut filters: usize = 0;
    let mut next: u32 = track.extras_base;
    let mut i: usize = 0;
    assert(out@ =~= base + all.take(0));
    assert(extras_fit(track@));
    assert(ports_before(track.extra_counts@, 0) == 0);
    while i < n
        invariant
            i <= n,
            n == track.stages@.len(),
            extras_fit(track@),
            filters <= i,
            filters == filters_before(track.stages@, i as int),
            filters <= track.extra_counts@.len() ==> next == track.extras_base + ports_before(
                track.extra_counts@,
                filters as int,
            ),
            all == frame_workers(index, track@),
            out@ == base + all.take(i as int),
        decreases n - i,
    {
        let mut extras_base: Option<u32> = None;
        match &track.stages[i] {
            FrameStage::Filter => {
                if filters < track.extra_counts.len() {
                    let count: u32 = track.extra_counts[filters];
                    if count > 0 {
                        extras_base = Some(next);
                    }
                    proof {
                        let fits = track.extras_base + ports_before(
                            track.extra_counts@,
                            filters + 1,
                        );
                        assert(fits <= u32::MAX);
                    }
                    next = next + count;
                }
                filters = filters + 1;
            },
            FrameStage::PixConvert { .. } => {},
        }
        let plan = WorkerPlan {
            track: index,
            role: WorkerRole::Frame { stage: i, extras_base },
            terminal: !track.has_encoder && i + 1 == n,
        };
        assert(extras_base == stage_extras(track@, i as int));
        assert(all[i as int] == plan);
        out.push(plan);
        assert(out@ =~= base + all.take(i + 1));
        i += 1;
    }
    if track.has_encoder {
        out.push(WorkerPlan { track: index, role: WorkerRole::Encode, terminal: true });
    } else if n == 0 {
        out.push(WorkerPlan { track: index, role: WorkerRole::Forward, terminal: true });
    }
    assert(out@ =~= base + all);
}

/// Splits a track into workers.
pub fn plan_track(index: u32, track: &PlanTrack) -> (r: Result<Vec<WorkerPlan>, JobError>)
    requires
        extras_fit(track@),
    ensures
        plan_result(r) == track_workers(index, track@),
{
    let mut out: Vec<WorkerPlan> = Vec::new();
    if track.frames {
        if track.copy {
            return Err(JobError::CopyOverFrames);
        }
        plan_frames(index, track, &mut out);
        assert(out@ =~= frame_workers(index, track@));
        return Ok(out);
    }
    if track.copy {
        out.push(WorkerPlan { track: index, role: WorkerRole::Copy, terminal: true });
        assert(out@ =~= track_workers(index, track@)->Ok_0);
        return Ok(out);
    }
    if !track.has_decoder {
        return Err(JobError::NoDecoder);
    }
    let direct = track.stages.len() == 0 && !track.has_encoder;
    out.push(
        WorkerPlan {
            track: index,
            role: WorkerRole::Decode { announce: direct },
            terminal: direct,
        },
    );
    if !direct {
        plan_frames(index, track, &mut out);
    }
    assert(out@ =~= track_workers(index, track@)->Ok_0);
    Ok(out)
}

/// What each track of a list says.
pub open spec fn plan_views(tracks: Seq<PlanTrack>) -> Seq<PlanTrackView> {
    Seq::new(tracks.len(), |i: int| tracks[i]@)
}

/// The workers of all tracks in order, or the first track that cannot be run and
/// why.
pub open spec fn all_workers(tracks: Seq<PlanTrackView>) -> Result<Seq<WorkerPlan>, (u32, JobError)>
    decreases tracks.len(),
{
    if tracks.len() == 0 {
        Ok(Seq::empty())
    } else {
        let i = (tracks.len() - 1) as u32;
        match all_workers(tracks.drop_last()) {
            Err(e) => Err(e),
            Ok(done) => match track_workers(i, tracks.last()) {
                Ok(more) => Ok(done + more),
                Err(e) => Err((i, e)),
            },
        }
    }
}

proof fn plan_error_stays(tracks: Seq<PlanTrackView>, n: int, e: (u32, JobError))
    requires
        0 <= n <= tracks.len(),
        all_workers(tracks.take(n)) == Err::<Seq<WorkerPlan>, (u32, JobError)>(e),
    ensures
        all_workers(tracks) == Err::<Seq<WorkerPlan>, (u32, JobError)>(e),
    decreases tracks.len() - n,
{
    if n < tracks.len() {
        assert(tracks.take(n + 1).drop_last() =~= tracks.take(n));
        plan_error_stays(tracks, n + 1, e);
    } else {
        assert(tracks.take(n) =~= tracks);
    }
}

/// Splits every track of an output into workers.
pub fn plan_workers(tracks: &Vec<PlanTrack>) -> (r: Result<Vec<WorkerPlan>, (u32, JobError)>)
    requires
        tracks@.len() <= u32::MAX,
        forall|i: int| 0 <= i < tracks@.len() ==> extras_fit(#[trigger] tracks@[i]@),
    ensures
        match all_workers(plan_views(tracks@)) {
            Ok(list) => r matches Ok(l) && l@ == list,
            Err(e) => r == Err::<Vec<WorkerPlan>, (u32, JobError)>(e),
        },
{
    let mut out: Vec<WorkerPlan> = Vec::new();
    let ghost all = plan_views(tracks@);
    let mut i: usize = 0;
    assert(all.take(0) =~= Seq::empty());
    assert(out@ =~= Seq::empty());
    while i < tracks.len()
        invariant
            i <= tracks@.len() <= u32::MAX,
            all == plan_views(tracks@),
            forall|j: int| 0 <= j < tracks@.len() ==> extras_fit(#[trigger] tracks@[j]@),
            all_workers(all.take(i as int)) == Ok::<Seq<WorkerPlan>, (u32, JobError)>(out@),
        decreases tracks@.len() - i,
    {
        proof {
            assert(all.take(i + 1).drop_last() =~= all.take(i as int));
            assert(all.take(i + 1).last() == tracks@[i as int]@);
        }
        match plan_track(i as u32, &tracks[i]) {
            Ok(more) => {
                let mut more = more;
                out.append(&mut more);
            },
            Err(e) => {
                proof {
                    plan_error_stays(all, i + 1, (i as u32, e));
                }
                return Err((i as u32, e));
            },
        }
        i += 1;
    }
    assert(all.take(i as int) =~= all);
    Ok(out)
}

/// The stage that a worker's failure is put down to.
pub open spec fn role_stage(role: WorkerRole, stages: Seq<FrameStage>) -> FailureStage {
    match role {
        WorkerRole::Copy => FailureStage::Copy,
        WorkerRole::Decode { .. } => FailureStage::Decode,
        WorkerRole::Frame { stage, .. } => stage_kind(stages[stage as int]),
        WorkerRole::Encode => FailureStage::Encode,
        WorkerRole::Forward => FailureStage::Sink,
    }
}

/// The stage that a worker's failure is put down to.
pub fn worker_failure_stage(role: &WorkerRole, stages: &Vec<FrameStage>) -> (r: FailureStage)
    requires
        role matches WorkerRole::Frame { stage, .. } ==> stage < stages@.len(),
    ensures
        r == role_stage(*role, stages@),
{
    match role {
        WorkerRole::Copy => FailureStage::Copy,
        WorkerRole::Decode { .. } => FailureStage::Decode,
        WorkerRole::Frame { stage, .. } => frame_stage_failure_kind(&stages[*stage]),
        WorkerRole::Encode => FailureStage::Encode,
        WorkerRole::Forward => FailureStage::Sink,
    }
}

/// The name of a worker: what it does, its track, and its stage where it runs
/// one.
pub open spec fn name_of(plan: WorkerPlan, stages: Seq<FrameStage>) -> Seq<char> {
    let track = digits(plan.track as nat);
    match plan.role {
        WorkerRole::Copy => "copy-"@ + track,
        WorkerRole::Decode { .. } => "decode-"@ + track,
        WorkerRole::Frame { stage, .. } => (match stages[stage as int] {
            FrameStage::Filter => "filter-"@,
            FrameStage::PixConvert { .. } => "convert-"@,
        }) + track + "-"@ + digits(stage as nat),
        WorkerRole::Encode => "encode-"@ + track,
        WorkerRole::Forward => "frame-terminal-"@ + track,
    }
}

/// Names a worker.
pub fn worker_name(plan: &WorkerPlan, stages: &Vec<FrameStage>) -> (r: String)
    requires
        plan.role matches WorkerRole::Frame { stage, .. } ==> stage < stages@.len(),
    ensures
        r@ == name_of(*plan, stages@),
{
    let track = decimal(plan.track as u64);
    match plan.role {
        WorkerRole::Copy => String::from_str("copy-").concat(track.as_str()),
        WorkerRole::Decode { .. } => String::from_str("decode-").concat(track.as_str()),
        WorkerRole::Frame { stage, .. } => {
            let mut r = match &stages[stage] {
                FrameStage::Filter => String::from_str("filter-"),
                FrameStage::PixConvert { .. } => String::from_str("convert-"),
            };
            r.append(track.as_str());
            r.append("-");
            r.append(decimal(stage as u64).as_str());
            r
        },
        WorkerRole::Encode => String::from_str("encode-").concat(track.as_str()),
        WorkerRole::Forward => String::from_str("frame-terminal-").concat(track.as_str()),
    }
}

/// The tracks that read from a source, in order.
pub open spec fn routes_of(tracks: Seq<PlanTrackView>, source: usize) -> Seq<int>
    decreases tracks.len(),
{
    if tracks.len() == 0 {
        Seq::empty()
    } else {
        let rest = routes_of(tracks.drop_last(), source);
        if tracks.last().source == source {
            rest.push(tracks.len() - 1)
        } else {
            rest
        }
    }
}

/// Lists the tracks that read from a source.
pub fn source_routes(tracks: &Vec<PlanTrack>, source: usize) -> (r: Vec<usize>)
    ensures
        r@.len() == routes_of(plan_views(tracks@), source).len(),
        forall|k: int|
            0 <= k < r@.len() ==> #[trigger] r@[k] == routes_of(plan_views(tracks@), source)[k],
{
    let mut r: Vec<usize> = Vec::new();
    let ghost all = plan_views(tracks@);
    let mut i: usize = 0;
    assert(all.take(0) =~= Seq::empty());
    while i < tracks.len()
        invariant
            i <= tracks@.len(),
            all == plan_views(tracks@),
            r@.len() == routes_of(all.take(i as int), source).len(),
            forall|k: int|
                0 <= k < r@.len() ==> #[trigger] r@[k] == routes_of(all.take(i as int), source)[k],
        decreases tracks@.len() - i,
    {
        proof {
            assert(all.take(i + 1).drop_last() =~= all.take(i as int));
        }
        if tracks[i].source == source {
            r.push(i);
        }
        i += 1;
    }
    assert(all.take(i as int) =~= all);
    r
}

/// How seek requests reach the sources that are read: whether the source in this
/// place gets any, and how many others it hands them on to.
#[derive(Clone, Copy, Debug, PartialEq, Eq, Structural)]
pub struct SeekWiring {
    pub has_seek: bool,
    pub siblings: usize,
}

/// The first source gets the requests and hands them on to all the others.
pub open spec fn seek_wiring(sources: int, requested: bool, place: int) -> SeekWiring {
    SeekWiring {
        has_seek: requested,
        siblings: if requested && place == 0 && sources > 0 {
            (sources - 1) as usize
        } else {
            0
        },
    }
}

/// Decides how seek requests reach the source in a place.
pub fn wire_seeks(sources: usize, requested: bool, place: usize) -> (r: SeekWiring)
    ensures
        r == seek_wiring(sources as int, requested, place as int),
{
    let siblings: usize = if requested && place == 0 && sources > 0 {
        sources - 1
    } else {
        0
    };
    SeekWiring { has_seek: requested, siblings }
}

/// A track that can be run has exactly one worker that delivers to its sink, and
/// that is the last one.
pub proof fn one_terminal_worker(index: u32, track: PlanTrackView)
    requires
        track_workers(index, track) is Ok,
        track.stages.len() <= usize::MAX,
    ensures
        ({
            let list = track_workers(index, track)->Ok_0;
            &&& list.len() > 0
            &&& forall|i: int|
                0 <= i < list.len() ==> ((#[trigger] list[i]).terminal <==> i == list.len() - 1)
            &&& forall|i: int| 0 <= i < list.len() ==> (#[trigger] list[i]).track == index
        }),
{
}

/// Every frame stage of a track has exactly one worker, in order, whatever the
/// source is.
pub proof fn every_stage_has_a_worker(index: u32, track: PlanTrackView, i: int)
    requires
        track_workers(index, track) is Ok,
        !track.copy,
        0 <= i < track.stages.len() <= usize::MAX,
    ensures
        ({
            let list = track_workers(index, track)->Ok_0;
            let first = if track.frames {
                0int
            } else {
                1int
            };
            list[first + i].role == (WorkerRole::Frame {
                stage: i as usize,
                extras_base: stage_extras(track, i),
            })
        }),
{
}

proof fn filters_add_up(stages: Seq<FrameStage>, m: int, n: int)
    requires
        0 <= m <= n <= stages.len(),
    ensures
        filters_before(stages, m) <= filters_before(stages, n),
        m < n && stages[m] is Filter ==> filters_before(stages, m) < filters_before(stages, n),
    decreases n - m,
{
    if m < n {
        filters_add_up(stages, m, n - 1);
    }
}

proof fn ports_add_up(counts: Seq<u32>, m: int, n: int)
    requires
        0 <= m <= n <= counts.len(),
    ensures
        ports_before(counts, m) <= ports_before(counts, n),
        m < n ==> ports_before(counts, m) + counts[m] <= ports_before(counts, n),
    decreases n - m,
{
    if m < n {
        ports_add_up(counts, m, n - 1);
    }
}

/// Extra frames of different stages of a track never share a stream index: every
/// port of a stage has one below the first of any later stage.
pub proof fn extras_of_stages_stay_apart(track: PlanTrackView, i: int, j: int, port: int)
    requires
        extras_fit(track),
        0 <= i < j < track.stages.len(),
        stage_extras(track, i) is Some,
        stage_extras(track, j) is Some,
        1 <= port <= track.extra_counts[filters_before(track.stages, i)],
    ensures
        stage_extras(track, i)->0 + (port - 1) < stage_extras(track, j)->0,
{
    let k = filters_before(track.stages, i);
    let l = filters_before(track.stages, j);
    filters_add_up(track.stages, i, j);
    ports_add_up(track.extra_counts, k, l);
    ports_add_up(track.extra_counts, 0, k);
    assert(track.extras_base + ports_before(track.extra_counts, k) <= u32::MAX);
    assert(track.extras_base + ports_before(track.extra_counts, l) <= u32::MAX);
}

/// A track has a copying worker only where it copies, a decoding one only where
/// packets are decoded, and an encoding one only where there is an encoder.
pub proof fn workers_follow_the_track(index: u32, track: PlanTrackView, i: int)
    requires
        track_workers(index, track) is Ok,
        0 <= i < track_workers(index, track)->Ok_0.len(),
    ensures
        ({
            let role = track_workers(index, track)->Ok_0[i].role;
            &&& role is Copy <==> track.copy
            &&& role is Decode ==> !track.copy && !track.frames && i == 0
            &&& role is Encode ==> !track.copy && track.has_encoder
        }),
{
}

/// One seek request reaches every source: the first takes it, and hands it on to
/// each of the others.
pub proof fn seek_reaches_every_source(sources: int)
    requires
        0 < sources <= usize::MAX,
    ensures
        forall|place: int|
            0 <= place < sources ==> (#[trigger] seek_wiring(sources, true, place)).has_seek,
        seek_wiring(sources, true, 0).siblings == sources - 1,
        forall|place: int|
            0 < place < sources ==> (#[trigger] seek_wiring(sources, true, place)).siblings == 0,
        forall|place: int| !(#[trigger] seek_wiring(sources, false, place)).has_seek,
{
}

/// A track can be run unless it is to copy where there are no packets, or to decode
/// without a decoder.
pub proof fn what_cannot_be_run(index: u32, track: PlanTrackView)
    ensures
        ({
            let r = track_workers(index, track);
            &&& track.frames && track.copy ==> r is Err && r->Err_0 is CopyOverFrames
            &&& !track.frames && !track.copy && !track.has_decoder ==> r is Err
                && r->Err_0 is NoDecoder
            &&& track.frames && !track.copy ==> r is Ok
            &&& !track.frames && (track.copy || track.has_decoder) ==> r is Ok
        }),
{
}

/// A track that copies has one worker. One that decodes has a decoder first, and that
/// one tells the sink what the frames are exactly where it is the last as well. Then comes
/// one worker per frame stage, then the encoder if there is one; and a source of frames
/// that nothing is done to has one worker that hands them on.
pub proof fn workers_of_a_track(index: u32, track: PlanTrackView)
    requires
        track_workers(index, track) is Ok,
        track.stages.len() <= usize::MAX,
    ensures
        ({
            let list = track_workers(index, track)->Ok_0;
            let decoders = if track.frames {
                0int
            } else {
                1int
            };
            let encoders = if track.has_encoder {
                1int
            } else {
                0int
            };
            let n = decoders + track.stages.len() + encoders;
            &&& track.copy ==> list.len() == 1 && list[0].role is Copy
            &&& !track.copy && n == 0 ==> list.len() == 1 && list[0].role is Forward
            &&& !track.copy && n > 0 ==> {
                &&& list.len() == n
                &&& !track.frames ==> list[0].role is Decode
                &&& !track.frames ==> (list[0].role->announce <==> n == 1)
                &&& forall|i: int|
                    decoders <= i < decoders + track.stages.len() ==> {
                        &&& (#[trigger] list[i]).role is Frame
                        &&& list[i].role->stage == i - decoders
                    }
                &&& track.has_encoder ==> list[n - 1].role is Encode
            }
        }),
{
}

/// Only filters with extra ports have extra frames. Those of the first filter begin where
/// the track's extra streams do, and those of a later one right behind all the ports of
/// the filters before it.
pub proof fn extras_follow_on(track: PlanTrackView, i: int, j: int)
    requires
        extras_fit(track),
        0 <= i < j < track.stages.len(),
        track.stages[i] is Filter,
        track.stages[j] is Filter,
        forall|m: int| i < m < j ==> !((#[trigger] track.stages[m]) is Filter),
        filters_before(track.stages, j) < track.extra_counts.len(),
        track.extra_counts[filters_before(track.stages, i)] > 0,
        track.extra_counts[filters_before(track.stages, j)] > 0,
    ensures
        stage_extras(track, i) is Some,
        stage_extras(track, j) is Some,
        stage_extras(track, j)->0 == stage_extras(track, i)->0
            + track.extra_counts[filters_before(track.stages, i)],
        filters_before(track.stages, i) == 0 ==> stage_extras(track, i)->0 == track.extras_base,
{
    let k = filters_before(track.stages, i);
    filters_add_up(track.stages, 0, i);
    no_filters_between(track.stages, i + 1, j);
    assert(filters_before(track.stages, i + 1) == k + 1);
    assert(track.extras_base + ports_before(track.extra_counts, k) <= u32::MAX);
    assert(track.extras_base + ports_before(track.extra_counts, k + 1) <= u32::MAX);
    ports_add_up(track.extra_counts, 0, k);
}

proof fn no_filters_between(stages: Seq<FrameStage>, m: int, n: int)
    requires
        0 <= m <= n <= stages.len(),
        forall|i: int| m <= i < n ==> !((#[trigger] stages[i]) is Filter),
    ensures
        filters_before(stages, m) == filters_before(stages, n),
    decreases n - m,
{
    if m < n {
        no_filters_between(stages, m, n - 1);
    }
}

/// A conversion has no extra frames, nor has a filter without extra ports.
pub proof fn no_ports_no_extras(track: PlanTrackView, i: int)
    requires
        0 <= i < track.stages.len(),
    ensures
        !(track.stages[i] is Filter) ==> stage_extras(track, i) is None,
        track.stages[i] is Filter && 0 <= filters_before(track.stages, i)
            < track.extra_counts.len() && track.extra_counts[filters_before(track.stages, i)] == 0
            ==> stage_extras(track, i) is None,
{
}

/// One track more adds its own workers, under its own number, behind those of the others;
/// where it cannot be run, the output is refused for it, unless it already was for an
/// earlier one.
pub proof fn tracks_have_their_own_workers(tracks: Seq<PlanTrackView>, more: PlanTrackView)
    requires
        tracks.len() < u32::MAX,
    ensures
        ({
            let before = all_workers(tracks);
            let own = track_workers(tracks.len() as u32, more);
            let after = all_workers(tracks.push(more));
            &&& before is Err ==> after is Err && after->Err_0 == before->Err_0
            &&& before is Ok && own is Err ==> after is Err && after->Err_0.0 == tracks.len()
                && after->Err_0.1 == own->Err_0
            &&& before is Ok && own is Ok ==> after is Ok && after->Ok_0.len()
                == before->Ok_0.len() + own->Ok_0.len() && after->Ok_0.take(
                before->Ok_0.len() as int,
            ) == before->Ok_0 && after->Ok_0.skip(before->Ok_0.len() as int) == own->Ok_0
        }),
{
    assert(tracks.push(more).drop_last() =~= tracks);
    if all_workers(tracks) is Ok && track_workers(tracks.len() as u32, more) is Ok {
        let done = all_workers(tracks)->Ok_0;
        let own = track_workers(tracks.len() as u32, more)->Ok_0;
        assert((done + own).take(done.len() as int) =~= done);
        assert((done + own).skip(done.len() as int) =~= own);
    }
}

/// The routes of a source are exactly the tracks that read from it, each once and in
/// order.
pub proof fn routes_are_the_readers(tracks: Seq<PlanTrackView>, source: usize)
    ensures
        ({
            let r = routes_of(tracks, source);
            &&& forall|k: int|
                0 <= k < r.len() ==> 0 <= #[trigger] r[k] < tracks.len() && tracks[r[k]].source
                    == source
            &&& forall|j: int, k: int| 0 <= j < k < r.len() ==> #[trigger] r[j] < #[trigger] r[k]
            &&& forall|i: int|
                0 <= i < tracks.len() && (#[trigger] tracks[i]).source == source ==> r.contains(i)
        }),
    decreases tracks.len(),
{
    if tracks.len() > 0 {
        let rest = tracks.drop_last();
        routes_are_the_readers(rest, source);
        let before = routes_of(rest, source);
        let r = routes_of(tracks, source);
        assert forall|i: int|
            0 <= i < tracks.len() && (#[trigger] tracks[i]).source == source implies r.contains(
            i,
        ) by {
            if i < rest.len() {
                assert(rest[i] == tracks[i]);
                let k = before.index_of(i);
                assert(r[k] == i);
            } else {
                assert(r[r.len() - 1] == i);
            }
        }
        assert forall|k: int| 0 <= k < r.len() implies 0 <= #[trigger] r[k] < tracks.len()
            && tracks[r[k]].source == source by {
            if k < before.len() {
                assert(r[k] == before[k]);
                assert(tracks[r[k]] == rest[before[k]]);
            }
        }
        assert forall|j: int, k: int| 0 <= j < k < r.len() implies #[trigger] r[j] < #[trigger] r[k] by {
            assert(r[j] == before[j]);
            if k < before.len() {
                assert(r[k] == before[k]);
            }
        }
    }
}

/// A worker's name begins with the name of the stage that its failure is put down to,
/// but for the one that only hands frames on to the sink.
pub proof fn names_tell_the_stage(plan: WorkerPlan, stages: Seq<FrameStage>)
    ensures
        !(plan.role is Forward) ==> {
            let stage = role_stage(plan.role, stages).name_spec();
            let name = name_of(plan, stages);
            &&& stage.len() < name.len()
            &&& name.take(stage.len() as int) == stage
            &&& name[stage.len() as int] == '-'
        },
        plan.role is Forward ==> role_stage(plan.role, stages) is Sink,
{
    reveal_strlit("copy-");
    reveal_strlit("decode-");
    reveal_strlit("filter-");
    reveal_strlit("convert-");
    reveal_strlit("encode-");
    reveal_strlit("copy");
    reveal_strlit("decode");
    reveal_strlit("filter");
    reveal_strlit("convert");
    reveal_strlit("encode");
    if !(plan.role is Forward) {
        let stage = role_stage(plan.role, stages).name_spec();
        let name = name_of(plan, stages);
        assert(name.take(stage.len() as int) =~= stage);
    }
}

} // verus!
