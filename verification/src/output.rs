//! One output on many threads, from starting its sink to its final counters.

use crate::error::JobError;
use crate::failure::{Cause, FailureStage, StageFailure};
use crate::media::StreamInfo;
use crate::staged::{AbortState, Progress, Shared};
use crate::stats::ExecutorStats;
use crate::topology::{
    all_workers, extras_fit, plan_views, plan_workers, PlanTrack, PlanTrackView,
};
use vstd::prelude::*;

verus! {

#[derive(Clone, Copy, Debug, PartialEq, Eq, Structural)]
pub enum OutputPhase {
    Starting,
    /// The sink is asked for sinks of the tracks' own.
    Splitting,
    Running { independent: bool },
    Joining,
    Finishing,
    /// The last progress report is on its way, for the `attempt`th time.
    Reporting { attempt: u32, event: Progress },
    Retrying { attempt: u32, event: Progress },
    Ended,
}

pub enum OutputCommand<E> {
    StartSink,
    OpenTrackSinks,
    /// Start the workers of the tracks, and the loop that feeds the sink unless
    /// the tracks have sinks of their own.
    Run { independent: bool },
    /// Wait for the workers to end.
    Join,
    FinishSink,
    ReportEnd(Progress),
    /// Wait a moment.
    Park,
    Finished(ExecutorStats),
    /// The output failed; whether its sink is to discard what it has.
    Failed { failure: StageFailure<E>, abandon: bool },
}

pub enum OutputReply<E> {
    Start,
    Done,
    /// How many sinks of the tracks' own the sink returned, if any.
    TrackSinks(Option<usize>),
    /// There was no room for the report.
    Full,
    Error(E),
}

/// How often the last progress report is tried.
pub const REPORT_ATTEMPTS: u32 = 100;

pub struct OutputRun {
    pub tracks: Vec<PlanTrack>,
    pub discard_on_failure: bool,
    pub reports: bool,
    pub phase: OutputPhase,
}

#[verifier::ext_equal]
pub struct OutputView {
    pub tracks: Seq<PlanTrackView>,
    pub discard_on_failure: bool,
    pub reports: bool,
    pub phase: OutputPhase,
}

impl View for OutputRun {
    type V = OutputView;

    open spec fn view(&self) -> OutputView {
        OutputView {
            tracks: plan_views(self.tracks@),
            discard_on_failure: self.discard_on_failure,
            reports: self.reports,
            phase: self.phase,
        }
    }
}

/// A track has an extra stream.
pub open spec fn has_extras(track: PlanTrackView) -> bool {
    exists|k: int| 0 <= k < track.extra_counts.len() && #[trigger] track.extra_counts[k] > 0
}

pub open spec fn any_extras(tracks: Seq<PlanTrackView>) -> bool {
    exists|i: int| 0 <= i < tracks.len() && has_extras(#[trigger] tracks[i])
}

/// Whether the tracks have sinks of their own, or why the answer of the sink
/// cannot be used: it must be one sink per track, and no track may have extra
/// streams.
pub open spec fn split(sinks: Option<usize>, tracks: Seq<PlanTrackView>) -> Result<bool, JobError> {
    match sinks {
        None => Ok(false),
        Some(n) => if n != tracks.len() {
            Err(JobError::TrackSinkCount { sinks: n as u64, tracks: tracks.len() as u64 })
        } else if any_extras(tracks) {
            Err(JobError::TrackSinkExtras)
        } else {
            Ok(true)
        },
    }
}

/// What a sink of a track's own is told of the track.
pub struct TrackSinkInfo {
    pub track_index: u32,
    pub stream: StreamInfo,
}

/// Describes each track for a sink of its own: its index, and its stream of the
/// output.
pub fn track_sink_infos(streams: &Vec<StreamInfo>, tracks: u32) -> (r: Vec<TrackSinkInfo>)
    requires
        tracks <= streams@.len(),
    ensures
        r@.len() == tracks,
        forall|i: int|
            0 <= i < tracks ==> #[trigger] r@[i] == (TrackSinkInfo {
                track_index: i as u32,
                stream: streams@[i],
            }),
{
    let mut r: Vec<TrackSinkInfo> = Vec::new();
    let mut i: u32 = 0;
    while i < tracks
        invariant
            i <= tracks <= streams@.len(),
            r@.len() == i,
            forall|j: int|
                0 <= j < i ==> #[trigger] r@[j] == (TrackSinkInfo {
                    track_index: j as u32,
                    stream: streams@[j],
                }),
        decreases tracks - i,
    {
        r.push(TrackSinkInfo { track_index: i, stream: streams[i as usize].clone() });
        i += 1;
    }
    r
}

fn check_extras(tracks: &Vec<PlanTrack>) -> (r: bool)
    ensures
        r == any_extras(plan_views(tracks@)),
{
    let mut i: usize = 0;
    while i < tracks.len()
        invariant
            i <= tracks@.len(),
            forall|j: int| 0 <= j < i ==> !has_extras(#[trigger] plan_views(tracks@)[j]),
        decreases tracks@.len() - i,
    {
        let counts = &tracks[i].extra_counts;
        let mut k: usize = 0;
        while k < counts.len()
            invariant
                k <= counts@.len(),
                i < tracks@.len(),
                counts@ == tracks@[i as int].extra_counts@,
                forall|j: int| 0 <= j < k ==> !((#[trigger] counts@[j]) > 0),
            decreases counts@.len() - k,
        {
            if counts[k] > 0 {
                proof {
                    let t = plan_views(tracks@)[i as int];
                    assert(t.extra_counts[k as int] > 0);
                    assert(has_extras(t));
                }
                return true;
            }
            k += 1;
        }
        i += 1;
    }
    false
}

/// Decides whether the tracks have sinks of their own.
pub fn split_sinks(sinks: Option<usize>, tracks: &Vec<PlanTrack>) -> (r: Result<bool, JobError>)
    ensures
        r == split(sinks, plan_views(tracks@)),
{
    match sinks {
        None => Ok(false),
        Some(n) => if n != tracks.len() {
            Err(JobError::TrackSinkCount { sinks: n as u64, tracks: tracks.len() as u64 })
        } else if check_extras(tracks) {
            Err(JobError::TrackSinkExtras)
        } else {
            Ok(true)
        },
    }
}

impl OutputView {
    pub open spec fn at(self, phase: OutputPhase) -> OutputView {
        OutputView { phase, ..self }
    }

    pub open spec fn failed<E>(self, shared: Shared<E>, failure: StageFailure<E>) -> (
        OutputView,
        Shared<E>,
        OutputCommand<E>,
    ) {
        (
            self.at(OutputPhase::Ended),
            shared,
            OutputCommand::Failed { failure, abandon: self.discard_on_failure },
        )
    }

    /// What follows the answer of the sink about sinks of the tracks' own.
    pub open spec fn splitting<E>(self, shared: Shared<E>, sinks: Option<usize>) -> (
        OutputView,
        Shared<E>,
        OutputCommand<E>,
    ) {
        match split(sinks, self.tracks) {
            Err(e) => self.failed(
                shared,
                StageFailure::at(FailureStage::Sink, None, Cause::Own(e)),
            ),
            Ok(independent) => match all_workers(self.tracks) {
                Err((track, e)) => self.failed(
                    shared,
                    StageFailure::at(FailureStage::Prepare, Some(track), Cause::Own(e)),
                ),
                Ok(_) => (
                    self.at(OutputPhase::Running { independent }),
                    shared,
                    OutputCommand::Run { independent },
                ),
            },
        }
    }

    /// One exchange: the outcome of the awaited call, then the next call. The
    /// time since the start goes into the last report.
    pub open spec fn step<E>(self, shared: Shared<E>, reply: OutputReply<E>, elapsed: u64) -> (
        OutputView,
        Shared<E>,
        OutputCommand<E>,
    ) {
        match (self.phase, reply) {
            (OutputPhase::Starting, OutputReply::Start) => (self, shared, OutputCommand::StartSink),
            (OutputPhase::Starting, OutputReply::Error(e)) => self.failed(
                shared,
                StageFailure::at(FailureStage::Sink, None, Cause::Raised(e)),
            ),
            (OutputPhase::Starting, _) => (
                self.at(OutputPhase::Splitting),
                shared,
                OutputCommand::OpenTrackSinks,
            ),
            (OutputPhase::Splitting, OutputReply::Error(e)) => self.failed(
                shared,
                StageFailure::at(FailureStage::Sink, None, Cause::Raised(e)),
            ),
            (OutputPhase::Splitting, OutputReply::TrackSinks(sinks)) => self.splitting(
                shared,
                sinks,
            ),
            (OutputPhase::Splitting, _) => self.splitting(shared, None),
            // Once the sink is fed, whoever still works is told to stop.
            (OutputPhase::Running { independent }, _) => (
                self.at(OutputPhase::Joining),
                if independent {
                    shared
                } else {
                    Shared { abort: shared.abort.aborted(), ..shared }
                },
                OutputCommand::Join,
            ),
            (OutputPhase::Joining, _) => match shared.abort.first {
                Some(failure) => self.failed(
                    Shared { abort: AbortState { first: None, ..shared.abort }, ..shared },
                    StageFailure { stats: shared.counters.snapshot_spec(), ..failure },
                ),
                None => (self.at(OutputPhase::Finishing), shared, OutputCommand::FinishSink),
            },
            (OutputPhase::Finishing, OutputReply::Error(e)) => self.failed(
                shared,
                StageFailure {
                    stats: shared.counters.snapshot_spec(),
                    ..StageFailure::at(FailureStage::SinkFinish, None, Cause::Raised(e))
                },
            ),
            (OutputPhase::Finishing, _) => if self.reports {
                let event = shared.counters.progress_spec(shared.budget, None, true, elapsed);
                (
                    self.at(OutputPhase::Reporting { attempt: 0, event }),
                    shared,
                    OutputCommand::ReportEnd(event),
                )
            } else {
                self.ended(shared)
            },
            (OutputPhase::Reporting { attempt, event }, OutputReply::Full) => if attempt + 1
                < REPORT_ATTEMPTS {
                (
                    self.at(OutputPhase::Retrying { attempt, event }),
                    shared,
                    OutputCommand::Park,
                )
            } else {
                self.ended(shared)
            },
            (OutputPhase::Reporting { .. }, _) => self.ended(shared),
            (OutputPhase::Retrying { attempt, event }, _) => (
                self.at(OutputPhase::Reporting { attempt: (attempt + 1) as u32, event }),
                shared,
                OutputCommand::ReportEnd(event),
            ),
            (OutputPhase::Ended, _) => self.ended(shared),
        }
    }

    pub open spec fn ended<E>(self, shared: Shared<E>) -> (
        OutputView,
        Shared<E>,
        OutputCommand<E>,
    ) {
        (
            self.at(OutputPhase::Ended),
            shared,
            OutputCommand::Finished(shared.counters.snapshot_spec()),
        )
    }
}

impl OutputRun {
    pub open spec fn wf(self) -> bool {
        &&& self.tracks@.len() <= u32::MAX
        &&& forall|i: int| 0 <= i < self.tracks@.len() ==> extras_fit(#[trigger] self.tracks@[i]@)
        &&& self.phase matches OutputPhase::Retrying { attempt, .. } ==> attempt < REPORT_ATTEMPTS
    }

    /// An output before its sink is started.
    pub fn new(tracks: Vec<PlanTrack>, discard_on_failure: bool, reports: bool) -> (r: Self)
        requires
            tracks@.len() <= u32::MAX,
            forall|i: int| 0 <= i < tracks@.len() ==> extras_fit(#[trigger] tracks@[i]@),
        ensures
            r.wf(),
            r@ == (OutputView {
                tracks: plan_views(tracks@),
                discard_on_failure,
                reports,
                phase: OutputPhase::Starting,
            }),
    {
        OutputRun { tracks, discard_on_failure, reports, phase: OutputPhase::Starting }
    }

    fn fail<E>(&mut self, failure: StageFailure<E>) -> (r: OutputCommand<E>)
        requires
            old(self).wf(),
        ensures
            final(self).wf(),
            forall|shared: Shared<E>|
                (final(self)@, shared, r) == #[trigger] old(self)@.failed(shared, failure),
    {
        self.phase = OutputPhase::Ended;
        OutputCommand::Failed { failure, abandon: self.discard_on_failure }
    }

    fn end<E>(&mut self, shared: &Shared<E>) -> (r: OutputCommand<E>)
        requires
            old(self).wf(),
        ensures
            final(self).wf(),
            (final(self)@, *shared, r) == old(self)@.ended(*shared),
    {
        self.phase = OutputPhase::Ended;
        OutputCommand::Finished(shared.counters.snapshot())
    }

    fn split<E>(&mut self, sinks: Option<usize>) -> (r: OutputCommand<E>)
        requires
            old(self).wf(),
        ensures
            final(self).wf(),
            forall|shared: Shared<E>|
                (final(self)@, shared, r) == #[trigger] old(self)@.splitting(shared, sinks),
    {
        match split_sinks(sinks, &self.tracks) {
            Err(e) => self.fail(StageFailure::new(FailureStage::Sink, None, Cause::Own(e))),
            Ok(independent) => match plan_workers(&self.tracks) {
                Err((track, e)) => self.fail(
                    StageFailure::new(FailureStage::Prepare, Some(track), Cause::Own(e)),
                ),
                Ok(_) => {
                    self.phase = OutputPhase::Running { independent };
                    OutputCommand::Run { independent }
                },
            },
        }
    }

    /// Takes the outcome of the call that was asked for, and asks for the next.
    pub fn step<E>(&mut self, shared: &mut Shared<E>, reply: OutputReply<E>, elapsed: u64) -> (r:
        OutputCommand<E>)
        requires
            old(self).wf(),
        ensures
            final(self).wf(),
            (final(self)@, *final(shared), r) == old(self)@.step(*old(shared), reply, elapsed),
    {
        match self.phase {
            OutputPhase::Starting => match reply {
                OutputReply::Start => OutputCommand::StartSink,
                OutputReply::Error(e) => self.fail(
                    StageFailure::new(FailureStage::Sink, None, Cause::Raised(e)),
                ),
                _ => {
                    self.phase = OutputPhase::Splitting;
                    OutputCommand::OpenTrackSinks
                },
            },
            OutputPhase::Splitting => match reply {
                OutputReply::Error(e) => self.fail(
                    StageFailure::new(FailureStage::Sink, None, Cause::Raised(e)),
                ),
                OutputReply::TrackSinks(sinks) => self.split(sinks),
                _ => self.split(None),
            },
            OutputPhase::Running { independent } => {
                if !independent {
                    shared.abort.request_abort();
                }
                self.phase = OutputPhase::Joining;
                OutputCommand::Join
            },
            OutputPhase::Joining => match shared.abort.take_failure() {
                Some(failure) => self.fail(failure.with_stats(shared.counters.snapshot())),
                None => {
                    self.phase = OutputPhase::Finishing;
                    OutputCommand::FinishSink
                },
            },
            OutputPhase::Finishing => match reply {
                OutputReply::Error(e) => {
                    let failure = StageFailure::new(
                        FailureStage::SinkFinish,
                        None,
                        Cause::Raised(e),
                    );
                    self.fail(failure.with_stats(shared.counters.snapshot()))
                },
                _ => {
                    if self.reports {
                        let event = shared.counters.progress(&shared.budget, None, true, elapsed);
                        self.phase = OutputPhase::Reporting { attempt: 0, event };
                        OutputCommand::ReportEnd(event)
                    } else {
                        self.end(shared)
                    }
                },
            },
            OutputPhase::Reporting { attempt, event } => match reply {
                OutputReply::Full => {
                    if attempt < REPORT_ATTEMPTS - 1 {
                        self.phase = OutputPhase::Retrying { attempt, event };
                        OutputCommand::Park
                    } else {
                        self.end(shared)
                    }
                },
                _ => self.end(shared),
            },
            OutputPhase::Retrying { attempt, event } => {
                self.phase = OutputPhase::Reporting { attempt: attempt + 1, event };
                OutputCommand::ReportEnd(event)
            },
            OutputPhase::Ended => self.end(shared),
        }
    }
}

/// An output that a worker failed in reports that failure, the first one, with
/// everything that had been done by then, and never finishes its sink; one in
/// which nobody failed does, also where it was asked to stop.
pub proof fn recorded_failure_decides<E>(
    v: OutputView,
    shared: Shared<E>,
    reply: OutputReply<E>,
    elapsed: u64,
)
    requires
        v.phase is Joining,
    ensures
        match shared.abort.first {
            Some(first) => v.step(shared, reply, elapsed).2 == (OutputCommand::Failed {
                failure: StageFailure { stats: shared.counters.snapshot_spec(), ..first },
                abandon: v.discard_on_failure,
            }),
            None => v.step(shared, reply, elapsed).2 == OutputCommand::<E>::FinishSink,
        },
{
}

/// A failing output's sink discards what it has exactly where that was asked
/// for.
pub proof fn abandoned_only_on_request<E>(
    v: OutputView,
    shared: Shared<E>,
    reply: OutputReply<E>,
    elapsed: u64,
)
    ensures
        v.step(shared, reply, elapsed).2 matches OutputCommand::Failed { abandon, .. } ==> abandon
            == v.discard_on_failure,
{
}

/// The last progress report agrees with the final counters.
pub proof fn last_report_is_final<E>(v: OutputView, shared: Shared<E>, elapsed: u64)
    requires
        v.phase is Finishing,
        v.reports,
    ensures
        ({
            let (w, s, command) = v.step(shared, OutputReply::Done, elapsed);
            let (_, _, last) = w.step(s, OutputReply::Done, elapsed);
            let stats = shared.counters.snapshot_spec();
            &&& command matches OutputCommand::ReportEnd(p) && p.eof && p.frames
                == stats.frames_written && p.packets_read == stats.packets_read
                && p.packets_copied == stats.packets_copied && p.packets_encoded
                == stats.packets_encoded && p.packets_skipped == stats.packets_skipped
            &&& last == OutputCommand::<E>::Finished(stats)
        }),
{
}

/// Tracks have sinks of their own exactly where the sink gave one for each and no track
/// has an extra stream; a sink that gave none serves all tracks itself. Any other answer
/// is refused.
pub proof fn one_sink_per_track(sinks: Option<usize>, tracks: Seq<PlanTrackView>)
    requires
        tracks.len() <= u32::MAX,
    ensures
        ({
            let r = split(sinks, tracks);
            let extras = exists|i: int, k: int|
                0 <= i < tracks.len() && 0 <= k < tracks[i].extra_counts.len()
                    && #[trigger] tracks[i].extra_counts[k] > 0;
            &&& r is Ok && r->Ok_0 <==> sinks is Some && sinks->0 == tracks.len() && !extras
            &&& r is Ok && !r->Ok_0 <==> sinks is None
            &&& sinks is Some && sinks->0 != tracks.len() ==> r is Err && r->Err_0
                is TrackSinkCount && r->Err_0->sinks == sinks->0 && r->Err_0->tracks
                == tracks.len()
            &&& sinks is Some && sinks->0 == tracks.len() && extras ==> r is Err
                && r->Err_0 is TrackSinkExtras
        }),
{
    if any_extras(tracks) {
        let i = choose|i: int| 0 <= i < tracks.len() && has_extras(#[trigger] tracks[i]);
        let k = choose|k: int|
            0 <= k < tracks[i].extra_counts.len() && #[trigger] tracks[i].extra_counts[k] > 0;
        assert(tracks[i].extra_counts[k] > 0);
    }
    if exists|i: int, k: int|
        0 <= i < tracks.len() && 0 <= k < tracks[i].extra_counts.len()
            && #[trigger] tracks[i].extra_counts[k] > 0 {
        let (i, k) = choose|i: int, k: int|
            0 <= i < tracks.len() && 0 <= k < tracks[i].extra_counts.len()
                && #[trigger] tracks[i].extra_counts[k] > 0;
        assert(has_extras(tracks[i]));
    }
}

/// An error of the sink ends the output where it stands, with that error: before the
/// tracks run as one of the sink, and where everything had run as one of finishing it,
/// with everything that had been done by then.
pub proof fn sink_errors_end_the_output<E>(v: OutputView, shared: Shared<E>, e: E, elapsed: u64)
    requires
        v.phase is Starting || v.phase is Splitting || v.phase is Finishing,
    ensures
        ({
            let (w, s, command) = v.step(shared, OutputReply::Error(e), elapsed);
            &&& w.phase is Ended
            &&& s == shared
            &&& command is Failed
            &&& command->failure.error == Cause::Raised(e)
            &&& command->failure.track is None
            &&& v.phase is Finishing ==> command->failure.stage is SinkFinish
            &&& !(v.phase is Finishing) ==> command->failure.stage is Sink
            &&& v.phase is Finishing ==> command->failure.stats.packets_read
                == shared.counters.packets_read && command->failure.stats.packets_copied
                == shared.counters.packets_copied && command->failure.stats.packets_encoded
                == shared.counters.packets_encoded && command->failure.stats.frames_decoded
                == shared.counters.frames_decoded && command->failure.stats.frames_written
                == shared.counters.frames_written && command->failure.stats.packets_skipped
                == shared.counters.packets_skipped
        }),
{
}

/// An output goes through its calls in order: the sink is started, then asked for sinks
/// of the tracks' own, the tracks run and are waited for, and the sink is finished. Whoever
/// still works when a shared sink has been fed is told to stop; where tracks have sinks of
/// their own, nobody is.
pub proof fn output_goes_in_order<E>(v: OutputView, shared: Shared<E>, elapsed: u64)
    ensures
        v.phase is Starting ==> v.step(shared, OutputReply::Start, elapsed).2 is StartSink,
        v.phase is Starting ==> v.step(shared, OutputReply::Done, elapsed).2 is OpenTrackSinks,
        v.phase is Splitting && all_workers(v.tracks) is Ok ==> ({
            let (w, s, command) = v.step(shared, OutputReply::TrackSinks(None), elapsed);
            &&& command is Run && !command->independent
            &&& w.phase is Running && !w.phase->independent
            &&& s == shared
        }),
        v.phase is Running ==> ({
            let (w, s, command) = v.step(shared, OutputReply::Done, elapsed);
            &&& command is Join
            &&& w.phase is Joining
            &&& s.abort.first == shared.abort.first
            &&& s.abort.cancelled <==> shared.abort.cancelled || !v.phase->independent
            &&& s.counters == shared.counters
            &&& s.budget == shared.budget
        }),
        v.phase is Finishing && !v.reports ==> v.step(
            shared,
            OutputReply::Done,
            elapsed,
        ).2 is Finished,
{
}

/// An output at its last report after that has found no room `k` times, with a wait after
/// each.
pub open spec fn after_refusals<E>(v: OutputView, shared: Shared<E>, k: nat, elapsed: u64) -> (
    OutputView,
    Shared<E>,
    OutputCommand<E>,
)
    decreases k,
{
    if k == 0 {
        v.step(shared, OutputReply::Done, elapsed)
    } else {
        let (w, s, _) = after_refusals(v, shared, (k - 1) as nat, elapsed);
        let (x, t, _) = w.step(s, OutputReply::Full, elapsed);
        x.step(t, OutputReply::Done, elapsed)
    }
}

/// The last report is tried again while it finds no room, the very same report, a hundred
/// times at most; then, or as soon as it is taken, the output is finished, with its
/// counters either way.
pub proof fn last_report_is_tried_again<E>(
    v: OutputView,
    shared: Shared<E>,
    k: nat,
    elapsed: u64,
)
    requires
        v.phase is Finishing,
        v.reports,
        k < 100,
    ensures
        ({
            let (w, s, c) = after_refusals(v, shared, k, elapsed);
            let first = v.step(shared, OutputReply::Done, elapsed).2;
            let (x, _, d) = w.step(s, OutputReply::Done, elapsed);
            let (y, _, e) = w.step(s, OutputReply::Full, elapsed);
            &&& s == shared
            &&& c is ReportEnd && c == first
            &&& d is Finished && d->Finished_0 == shared.counters.snapshot_spec()
            &&& k + 1 < 100 ==> e is Park
            &&& k + 1 == 100 ==> e is Finished && e->Finished_0
                == shared.counters.snapshot_spec()
        }),
{
    refusals_count_up(v, shared, k, elapsed);
}

proof fn refusals_count_up<E>(v: OutputView, shared: Shared<E>, k: nat, elapsed: u64)
    requires
        v.phase is Finishing,
        v.reports,
        k < REPORT_ATTEMPTS,
    ensures
        ({
            let (w, s, c) = after_refusals(v, shared, k, elapsed);
            let first = v.step(shared, OutputReply::Done, elapsed);
            &&& s == shared
            &&& first.2 is ReportEnd && c == first.2
            &&& w == v.at(
                OutputPhase::Reporting { attempt: k as u32, event: first.2->ReportEnd_0 },
            )
        }),
    decreases k,
{
    if k > 0 {
        refusals_count_up(v, shared, (k - 1) as nat, elapsed);
    }
}

/// An answer of the sink that cannot be used ends the output as a failure of the sink, on
/// no track; a track that cannot be run ends it as one of preparing it, on that track. Both
/// carry the library's own error, and nothing has run.
pub proof fn what_cannot_run_ends_the_output<E>(
    v: OutputView,
    shared: Shared<E>,
    sinks: Option<usize>,
    elapsed: u64,
)
    requires
        v.phase is Splitting,
    ensures
        ({
            let (w, s, c) = v.step(shared, OutputReply::TrackSinks(sinks), elapsed);
            let answer = split(sinks, v.tracks);
            let workers = all_workers(v.tracks);
            &&& s == shared
            &&& c is Run <==> answer is Ok && workers is Ok
            &&& c is Run ==> c->independent == answer->Ok_0
            &&& answer is Err ==> {
                &&& c is Failed && w.phase is Ended
                &&& c->failure.stage is Sink && c->failure.track is None
                &&& c->failure.error == Cause::<E>::Own(answer->Err_0)
            }
            &&& answer is Ok && workers is Err ==> {
                &&& c is Failed && w.phase is Ended
                &&& c->failure.stage is Prepare
                &&& c->failure.track == Some(workers->Err_0.0)
                &&& c->failure.error == Cause::<E>::Own(workers->Err_0.1)
            }
        }),
{
}

} // verus!
