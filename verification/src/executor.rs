//! Running a job: its thread budget, and its outputs in order or in waves.

use crate::dag::{has_encoder, Dag, DagNode};
use crate::error::JobError;
use crate::failure::{Cause, FailureStage, RunFailure, StageFailure};
use crate::selection::CodecPreferences;
use crate::sources::RoutedSource;
use crate::staged::ChannelCaps;
use crate::stats::ExecutorStats;
use vstd::prelude::*;

verus! {

/// What a source does at its end.
#[derive(Clone, Copy, Debug, PartialEq, Eq, Structural)]
pub enum EofMode {
    /// The output ends.
    Finish,
    /// The output stays until a seek or a stop.
    WaitForSeek,
}

/// How a job is run.
pub struct Executor {
    /// Names of the outputs whose sink the caller installed.
    pub sink_overrides: Vec<String>,
    pub explicit_threads: Option<usize>,
    pub channel_caps: Option<ChannelCaps>,
    pub max_queue_bytes: u64,
    pub discard_failed_outputs: bool,
    pub has_render_factory: bool,
    pub codec_preferences: CodecPreferences,
    pub eof_mode: EofMode,
}

/// `oxideav_core::ExecutionContext::auto`: as many threads as the host offers.
/// Nothing more is said of the number than that it is not zero.
#[verifier::external_body]
fn core_auto_threads() -> (r: usize)
    ensures
        r >= 1,
{
    oxideav_core::ExecutionContext::auto().threads
}

pub open spec fn min_int(a: int, b: int) -> int {
    if a <= b {
        a
    } else {
        b
    }
}

pub open spec fn max_int(a: int, b: int) -> int {
    if a >= b {
        a
    } else {
        b
    }
}

/// How many workers a budget of `threads` allows for `units` pieces of work: no
/// more than either, and at least one.
pub open spec fn workers(threads: usize, units: usize) -> int {
    max_int(min_int(max_int(threads as int, 1), units as int), 1)
}

/// `oxideav_core::ExecutionContext::with_threads` and `effective_workers`: the
/// smaller of budget and work, both taken as at least one.
#[verifier::external_body]
fn core_effective_workers(threads: usize, units: usize) -> (r: usize)
    ensures
        r == workers(threads, units),
{
    oxideav_core::ExecutionContext::with_threads(threads).effective_workers(units)
}

/// The thread budget: what the caller set, else what the job says, else what the
/// host offers. Zero counts as unset.
pub open spec fn chosen_threads(explicit: Option<usize>, job: Option<usize>, host: usize) -> usize {
    match (explicit, job) {
        (Some(n), _) if n > 0 => n,
        (_, Some(n)) if n > 0 => n,
        _ => host,
    }
}

/// Picks the thread budget.
pub fn choose_threads(explicit: Option<usize>, job: Option<usize>, host: usize) -> (r: usize)
    ensures
        r == chosen_threads(explicit, job, host),
{
    match explicit {
        Some(n) => if n > 0 {
            return n;
        },
        None => {},
    }
    match job {
        Some(n) => if n > 0 {
            return n;
        },
        None => {},
    }
    host
}

impl Executor {
    pub fn new() -> (r: Self)
        ensures
            r.sink_overrides@.len() == 0,
            r.explicit_threads is None,
            r.channel_caps is None,
            r.max_queue_bytes == 0,
            !r.discard_failed_outputs,
            !r.has_render_factory,
            r.codec_preferences.is_default(),
            r.eof_mode is Finish,
    {
        Executor {
            sink_overrides: Vec::new(),
            explicit_threads: None,
            channel_caps: None,
            max_queue_bytes: 0,
            discard_failed_outputs: false,
            has_render_factory: false,
            codec_preferences: CodecPreferences::default(),
            eof_mode: EofMode::Finish,
        }
    }

    /// Notes that the caller installs the sink of a named output.
    pub fn with_sink_override(self, name: &String) -> (r: Self)
        ensures
            r.sink_overrides@ == self.sink_overrides@.push(*name),
            r == (Executor { sink_overrides: r.sink_overrides, ..self }),
    {
        let mut r = self;
        r.sink_overrides.push(name.clone());
        r
    }

    /// Sets the thread budget; zero leaves it to the job or the host.
    pub fn with_threads(self, n: usize) -> (r: Self)
        ensures
            r == (Executor { explicit_threads: Some(n), ..self }),
    {
        let mut r = self;
        r.explicit_threads = Some(n);
        r
    }

    pub fn with_codec_preferences(self, preferences: CodecPreferences) -> (r: Self)
        ensures
            r == (Executor { codec_preferences: preferences, ..self }),
    {
        let mut r = self;
        r.codec_preferences = preferences;
        r
    }

    pub fn with_channel_caps(self, caps: ChannelCaps) -> (r: Self)
        ensures
            r == (Executor { channel_caps: Some(caps), ..self }),
    {
        let mut r = self;
        r.channel_caps = Some(caps);
        r
    }

    pub fn with_max_queue_bytes(self, n: u64) -> (r: Self)
        ensures
            r == (Executor { max_queue_bytes: n, ..self }),
    {
        let mut r = self;
        r.max_queue_bytes = n;
        r
    }

    pub fn with_discard_failed_outputs(self, discard: bool) -> (r: Self)
        ensures
            r == (Executor { discard_failed_outputs: discard, ..self }),
    {
        let mut r = self;
        r.discard_failed_outputs = discard;
        r
    }

    /// Notes that the caller can build sources from render requests.
    pub fn with_render_source_factory(self) -> (r: Self)
        ensures
            r == (Executor { has_render_factory: true, ..self }),
    {
        let mut r = self;
        r.has_render_factory = true;
        r
    }

    pub fn with_eof_mode(self, mode: EofMode) -> (r: Self)
        ensures
            r == (Executor { eof_mode: mode, ..self }),
    {
        let mut r = self;
        r.eof_mode = mode;
        r
    }

    /// Whether the caller installed the sink of an output.
    pub fn has_override(&self, name: &String) -> (r: bool)
        ensures
            r == crate::selection::listed(self.sink_overrides@, name@),
    {
        let mut i: usize = 0;
        while i < self.sink_overrides.len()
            invariant
                i <= self.sink_overrides@.len(),
                forall|j: int|
                    0 <= j < i ==> #[trigger] self.sink_overrides@[j]@ != name@,
            decreases self.sink_overrides@.len() - i,
        {
            if self.sink_overrides[i] == *name {
                assert(self.sink_overrides@[i as int]@ == name@);
                return true;
            }
            i += 1;
        }
        false
    }

    /// The capacities of the queues between workers.
    pub fn capacities(&self) -> (r: (usize, usize))
        ensures
            ({
                let caps = match self.channel_caps {
                    Some(c) => c,
                    None => ChannelCaps { packets: 16, frames: 8 },
                };
                r == (
                    crate::staged::at_least_one(caps.packets),
                    crate::staged::at_least_one(caps.frames),
                )
            }),
    {
        match self.channel_caps {
            Some(c) => c.resolved(),
            None => ChannelCaps::default().resolved(),
        }
    }

    /// The thread budget of a job. What the host offers is not known beforehand.
    pub fn resolve_threads(&self, job: Option<usize>) -> (r: usize)
        ensures
            exists|host: usize| host >= 1 && r == #[trigger] chosen_threads(
                self.explicit_threads,
                job,
                host,
            ),
            r >= 1,
    {
        let host: usize = core_auto_threads();
        choose_threads(self.explicit_threads, job, host)
    }

    /// Starts running the outputs of a job, in document order.
    pub fn run_reporting(&self, names: Vec<String>, job: Option<usize>) -> (r: JobRun)
        ensures
            r.wf(),
            exists|host: usize|
                host >= 1 && r@ == JobView::start(
                    names@,
                    #[trigger] chosen_threads(self.explicit_threads, job, host),
                    self.discard_failed_outputs,
                ),
    {
        let threads: usize = self.resolve_threads(job);
        JobRun::new(names, threads, self.discard_failed_outputs)
    }

    /// The outcome of a job, with the error as it was raised.
    pub fn run<E>(outcome: Result<ExecutorStats, RunFailure<E>>) -> (r: Result<
        ExecutorStats,
        Cause<E>,
    >)
        ensures
            r == match outcome {
                Ok(stats) => Ok::<ExecutorStats, Cause<E>>(stats),
                Err(f) => Err(f.error),
            },
    {
        match outcome {
            Ok(stats) => Ok(stats),
            Err(f) => Err(f.into_error()),
        }
    }

    /// The one output that can be run in the background, and its thread budget.
    pub fn spawn(&self, outputs: usize, job: Option<usize>) -> (r: Result<usize, JobError>)
        ensures
            outputs == 0 ==> r == Err::<usize, JobError>(JobError::NoOutputs),
            outputs > 1 ==> r == Err::<usize, JobError>(JobError::ManyOutputs),
            outputs == 1 ==> (r matches Ok(threads) && exists|host: usize|
                host >= 1 && threads == max_int(
                    (#[trigger] chosen_threads(self.explicit_threads, job, host)) as int,
                    2,
                )),
    {
        if outputs == 0 {
            return Err(JobError::NoOutputs);
        }
        if outputs > 1 {
            return Err(JobError::ManyOutputs);
        }
        let threads: usize = self.resolve_threads(job);
        if threads >= 2 {
            Ok(threads)
        } else {
            Ok(2)
        }
    }

    /// Whether the output of a graph can stay at its end for a seek: nothing in it
    /// encodes, and every source that it reads, as far as they are known, can be
    /// moved.
    pub fn check_eof_mode(&self, dag: &Dag, sources: &Vec<RoutedSource>) -> (r: Result<
        (),
        JobError,
    >)
        ensures
            r == eof_mode_allows(self.eof_mode, dag.nodes@, sources@),
    {
        match self.eof_mode {
            EofMode::Finish => Ok(()),
            EofMode::WaitForSeek => {
                if dag.encodes() {
                    return Err(JobError::ParkWithEncoder);
                }
                let mut i: usize = 0;
                while i < sources.len()
                    invariant
                        i <= sources@.len(),
                        self.eof_mode is WaitForSeek,
                        !has_encoder(dag.nodes@),
                        forall|j: int| 0 <= j < i ==> (#[trigger] sources@[j]).seekable_spec(),
                    decreases sources@.len() - i,
                {
                    if !sources[i].seekable() {
                        assert(!sources@[i as int].seekable_spec());
                        return Err(JobError::ParkNeedsSeek);
                    }
                    i += 1;
                }
                Ok(())
            },
        }
    }
}

/// Whether the output of a graph that reads these sources may stay at its end for
/// a seek.
pub open spec fn eof_mode_allows(
    mode: EofMode,
    nodes: Seq<DagNode>,
    sources: Seq<RoutedSource>,
) -> Result<(), JobError> {
    if mode is Finish {
        Ok(())
    } else if has_encoder(nodes) {
        Err(JobError::ParkWithEncoder)
    } else if forall|i: int| 0 <= i < sources.len() ==> (#[trigger] sources[i]).seekable_spec() {
        Ok(())
    } else {
        Err(JobError::ParkNeedsSeek)
    }
}

/// How the outputs of a job are run.
#[derive(Clone, Copy, Debug, PartialEq, Eq, Structural)]
pub struct JobPlan {
    pub outputs: usize,
    /// How many outputs run at a time.
    pub width: usize,
    /// Threads that each output's codecs may use.
    pub per_output: usize,
    /// Whether an output is split into workers.
    pub pipelined: bool,
    /// Whether outputs run concurrently.
    pub waves: bool,
}

/// One thread runs outputs one after the other, each on that thread; several
/// threads split each output into workers, and several outputs then run in
/// waves, each with an even share of the budget.
pub open spec fn job_plan(threads: usize, outputs: usize) -> JobPlan {
    if threads >= 2 && outputs >= 2 {
        let width = workers(threads, outputs);
        JobPlan {
            outputs,
            width: width as usize,
            per_output: max_int(threads as int / width, 1) as usize,
            pipelined: true,
            waves: true,
        }
    } else {
        JobPlan {
            outputs,
            width: 1,
            per_output: threads,
            pipelined: threads >= 2,
            waves: false,
        }
    }
}

/// Decides how the outputs of a job are run.
pub fn plan_job(threads: usize, outputs: usize) -> (r: JobPlan)
    ensures
        r == job_plan(threads, outputs),
        r.width >= 1,
{
    if threads >= 2 && outputs >= 2 {
        let width: usize = core_effective_workers(threads, outputs);
        let share: usize = threads / width;
        let per_output: usize = if share >= 1 {
            share
        } else {
            1
        };
        JobPlan { outputs, width, per_output, pipelined: true, waves: true }
    } else {
        JobPlan { outputs, width: 1, per_output: threads, pipelined: threads >= 2, waves: false }
    }
}

#[derive(Clone, Copy, Debug, PartialEq, Eq, Structural)]
pub enum JobPhase {
    /// Before the next output or wave.
    Top,
    /// An output is being run by itself.
    Single,
    /// The outputs of a wave are being prepared, this one now.
    Preparing { output: usize },
    /// A wave is running.
    Wave,
    Ended,
}

pub enum JobCommand<E> {
    RunSerial { output: usize },
    RunPipelined { output: usize, threads: usize },
    /// Prepare an output of a wave.
    Prepare { output: usize, threads: usize },
    /// Run the prepared outputs from `first` up to `end`, all at a time, each to
    /// its own end.
    RunWave { first: usize, end: usize },
    Finished(ExecutorStats),
    /// The job failed. The sinks of the outputs from `discard_from` up to
    /// `discard_to`, which were prepared and never ran, are to discard what they
    /// have.
    Failed { failure: RunFailure<E>, discard_from: usize, discard_to: usize },
}

pub enum JobReply<E> {
    Start,
    Ran(Result<ExecutorStats, StageFailure<E>>),
    Prepared,
    PrepareFailed(Cause<E>),
    /// The results of a wave, in document order.
    WaveRan(Vec<Result<ExecutorStats, StageFailure<E>>>),
}

/// What the thread that ran an output of a wave came to: the output's own result,
/// or, where the thread panicked, a failure of the sink that it drives.
pub fn wave_result<E>(returned: Option<Result<ExecutorStats, StageFailure<E>>>) -> (r: Result<
    ExecutorStats,
    StageFailure<E>,
>)
    ensures
        r == match returned {
            Some(result) => result,
            None => Err(
                StageFailure::at(FailureStage::Sink, None, Cause::Own(JobError::OutputPanicked)),
            ),
        },
{
    match returned {
        Some(result) => result,
        None => Err(
            StageFailure::new(FailureStage::Sink, None, Cause::Own(JobError::OutputPanicked)),
        ),
    }
}

/// Runs the outputs of a job, in document order.
pub struct JobRun {
    pub names: Vec<String>,
    pub plan: JobPlan,
    pub discard: bool,
    /// The next output, or the first of the wave.
    pub at: usize,
    pub stats: ExecutorStats,
    pub phase: JobPhase,
}

#[verifier::ext_equal]
pub struct JobView {
    pub names: Seq<String>,
    pub plan: JobPlan,
    pub discard: bool,
    pub at: int,
    pub stats: ExecutorStats,
    pub phase: JobPhase,
}

impl View for JobRun {
    type V = JobView;

    open spec fn view(&self) -> JobView {
        JobView {
            names: self.names@,
            plan: self.plan,
            discard: self.discard,
            at: self.at as int,
            stats: self.stats,
            phase: self.phase,
        }
    }
}

/// The counters of a list of outputs added up, up to the first that failed.
pub open spec fn tallied<E>(
    stats: ExecutorStats,
    results: Seq<Result<ExecutorStats, StageFailure<E>>>,
) -> ExecutorStats
    decreases results.len(),
{
    if results.len() == 0 {
        stats
    } else {
        match results[0] {
            Ok(s) => tallied(stats.merged(s), results.skip(1)),
            Err(_) => stats,
        }
    }
}

/// Those sums can be represented.
pub open spec fn can_tally<E>(
    stats: ExecutorStats,
    results: Seq<Result<ExecutorStats, StageFailure<E>>>,
) -> bool
    decreases results.len(),
{
    results.len() > 0 ==> match results[0] {
        Ok(s) => stats.can_merge(s) && can_tally(stats.merged(s), results.skip(1)),
        Err(_) => true,
    }
}

/// The first failure in a list of results; its length where there is none.
pub open spec fn first_failure<E>(
    results: Seq<Result<ExecutorStats, StageFailure<E>>>,
    from: int,
) -> int
    decreases results.len() - from,
{
    if from < 0 || from >= results.len() {
        results.len() as int
    } else if results[from] is Err {
        from
    } else {
        first_failure(results, from + 1)
    }
}

impl JobView {
    /// A job before its first output.
    pub open spec fn start(names: Seq<String>, threads: usize, discard: bool) -> JobView {
        JobView {
            names,
            plan: job_plan(threads, names.len() as usize),
            discard,
            at: 0,
            stats: ExecutorStats::zero(),
            phase: JobPhase::Top,
        }
    }

    pub open spec fn wave_end(self) -> int {
        min_int(self.at + self.plan.width, self.names.len() as int)
    }

    /// The next output, or the first of the next wave, or the end.
    pub open spec fn next<E>(self) -> (JobView, JobCommand<E>) {
        if self.at >= self.names.len() {
            (JobView { phase: JobPhase::Ended, ..self }, JobCommand::Finished(self.stats))
        } else if self.plan.waves {
            (
                JobView { phase: JobPhase::Preparing { output: self.at as usize }, ..self },
                JobCommand::Prepare {
                    output: self.at as usize,
                    threads: self.plan.per_output,
                },
            )
        } else if self.plan.pipelined {
            (
                JobView { phase: JobPhase::Single, ..self },
                JobCommand::RunPipelined {
                    output: self.at as usize,
                    threads: self.plan.per_output,
                },
            )
        } else {
            (
                JobView { phase: JobPhase::Single, ..self },
                JobCommand::RunSerial { output: self.at as usize },
            )
        }
    }

    pub open spec fn failed<E>(
        self,
        output: int,
        failure: StageFailure<E>,
        discard_from: int,
        discard_to: int,
    ) -> (JobView, JobCommand<E>) {
        (
            JobView { phase: JobPhase::Ended, ..self },
            JobCommand::Failed {
                failure: RunFailure::of_output(self.names[output], failure),
                discard_from: discard_from as usize,
                discard_to: discard_to as usize,
            },
        )
    }

    /// One exchange: what became of the last command, then the next.
    pub open spec fn step<E>(self, reply: JobReply<E>) -> (JobView, JobCommand<E>) {
        match (self.phase, reply) {
            (JobPhase::Top, _) => self.next(),
            (JobPhase::Single, JobReply::Ran(Ok(stats))) => JobView {
                at: self.at + 1,
                stats: self.stats.merged(stats),
                ..self
            }.next(),
            (JobPhase::Single, JobReply::Ran(Err(f))) => self.failed(self.at, f, 0, 0),
            (JobPhase::Preparing { output }, JobReply::Prepared) => if output + 1
                < self.wave_end() {
                (
                    JobView {
                        phase: JobPhase::Preparing { output: (output + 1) as usize },
                        ..self
                    },
                    JobCommand::Prepare {
                        output: (output + 1) as usize,
                        threads: self.plan.per_output,
                    },
                )
            } else {
                (
                    JobView { phase: JobPhase::Wave, ..self },
                    JobCommand::RunWave {
                        first: self.at as usize,
                        end: self.wave_end() as usize,
                    },
                )
            },
            (JobPhase::Preparing { output }, JobReply::PrepareFailed(cause)) => self.failed(
                output as int,
                StageFailure::at(FailureStage::Prepare, None, cause),
                if self.discard {
                    self.at
                } else {
                    0
                },
                if self.discard {
                    output as int
                } else {
                    0
                },
            ),
            (JobPhase::Wave, JobReply::WaveRan(results)) => {
                let bad = first_failure(results@, 0);
                let tally = JobView { stats: tallied(self.stats, results@), ..self };
                if bad < results@.len() {
                    tally.failed(self.at + bad, results@[bad]->Err_0, 0, 0)
                } else {
                    JobView { at: self.wave_end(), ..tally }.next()
                }
            },
            _ => (self, JobCommand::Finished(self.stats)),
        }
    }

    /// Whether a reply can follow the last command.
    pub open spec fn fits<E>(self, reply: JobReply<E>) -> bool {
        match self.phase {
            JobPhase::Top => reply is Start,
            JobPhase::Single => match reply {
                JobReply::Ran(Ok(stats)) => self.stats.can_merge(stats),
                JobReply::Ran(Err(_)) => true,
                _ => false,
            },
            JobPhase::Preparing { .. } => reply is Prepared || reply is PrepareFailed,
            JobPhase::Wave => match reply {
                JobReply::WaveRan(results) => results@.len() == self.wave_end() - self.at
                    && can_tally(self.stats, results@),
                _ => false,
            },
            JobPhase::Ended => false,
        }
    }

    pub open spec fn phase_wf(self) -> bool {
        &&& self.plan.width >= 1
        &&& self.at <= self.names.len()
        &&& match self.phase {
            JobPhase::Single | JobPhase::Wave => self.at < self.names.len(),
            JobPhase::Preparing { output } => self.at <= output < self.wave_end(),
            _ => true,
        }
    }
}

impl JobRun {
    pub open spec fn wf(self) -> bool {
        self@.phase_wf()
    }

    /// A job over the outputs of these names, with a thread budget.
    pub fn new(names: Vec<String>, threads: usize, discard: bool) -> (r: Self)
        ensures
            r.wf(),
            r@ == JobView::start(names@, threads, discard),
    {
        let plan = plan_job(threads, names.len());
        JobRun {
            names,
            plan,
            discard,
            at: 0,
            stats: ExecutorStats::default(),
            phase: JobPhase::Top,
        }
    }

    fn wave_end(&self) -> (r: usize)
        requires
            self.wf(),
        ensures
            r == self@.wave_end(),
    {
        let n: usize = self.names.len();
        if self.plan.width <= n - self.at {
            self.at + self.plan.width
        } else {
            n
        }
    }

    fn next<E>(&mut self) -> (r: JobCommand<E>)
        requires
            old(self).plan.width >= 1,
            old(self).at <= old(self).names@.len(),
        ensures
            final(self).wf(),
            (final(self)@, r) == old(self)@.next::<E>(),
    {
        if self.at >= self.names.len() {
            self.phase = JobPhase::Ended;
            JobCommand::Finished(self.stats)
        } else if self.plan.waves {
            self.phase = JobPhase::Preparing { output: self.at };
            JobCommand::Prepare { output: self.at, threads: self.plan.per_output }
        } else if self.plan.pipelined {
            self.phase = JobPhase::Single;
            JobCommand::RunPipelined { output: self.at, threads: self.plan.per_output }
        } else {
            self.phase = JobPhase::Single;
            JobCommand::RunSerial { output: self.at }
        }
    }

    fn fail<E>(
        &mut self,
        output: usize,
        failure: StageFailure<E>,
        discard_from: usize,
        discard_to: usize,
    ) -> (r: JobCommand<E>)
        requires
            old(self).wf(),
            output < old(self).names@.len(),
        ensures
            final(self).wf(),
            (final(self)@, r) == old(self)@.failed(
                output as int,
                failure,
                discard_from as int,
                discard_to as int,
            ),
    {
        self.phase = JobPhase::Ended;
        JobCommand::Failed {
            failure: RunFailure::for_output(&self.names[output], failure),
            discard_from,
            discard_to,
        }
    }

    fn tally<E>(&mut self, results: Vec<Result<ExecutorStats, StageFailure<E>>>) -> (r: JobCommand<E>)
        requires
            old(self).wf(),
            old(self).phase is Wave,
            results@.len() == old(self)@.wave_end() - old(self).at,
            can_tally(old(self).stats, results@),
        ensures
            final(self).wf(),
            (final(self)@, r) == old(self)@.step(JobReply::WaveRan(results)),
    {
        let ghost all = results@;
        let ghost before = self@;
        let n: usize = results.len();
        let mut left = results;
        let mut i: usize = 0;
        assert(left@ =~= all.skip(0));
        while i < n
            invariant
                i <= n,
                n == all.len(),
                left@ == all.skip(i as int),
                self.wf(),
                self@ == (JobView { stats: self.stats, ..before }),
                before.phase is Wave,
                n == before.wave_end() - before.at,
                can_tally(self.stats, left@),
                tallied(self.stats, left@) == tallied(before.stats, all),
                first_failure(all, 0) == first_failure(all, i as int),
                before == old(self)@,
                all == results@,
            decreases n - i,
        {
            assert(left@[0] == all[i as int]);
            let first = left.remove(0);
            assert(left@ =~= all.skip(i + 1));
            assert(all.skip(i as int).skip(1) =~= all.skip(i + 1));
            match first {
                Ok(stats) => {
                    self.stats.merge(&stats);
                },
                Err(f) => {
                    let m: usize = self.names.len();
                    assert(self.at + i < m);
                    let output: usize = self.at + i;
                    return self.fail(output, f, 0, 0);
                },
            }
            i += 1;
        }
        self.at = self.wave_end();
        self.next()
    }

    /// Takes what became of the last command, and gives the next.
    pub fn step<E>(&mut self, reply: JobReply<E>) -> (r: JobCommand<E>)
        requires
            old(self).wf(),
            old(self)@.fits(reply),
        ensures
            final(self).wf(),
            (final(self)@, r) == old(self)@.step(reply),
    {
        let n: usize = self.names.len();
        match self.phase {
            JobPhase::Top => self.next(),
            JobPhase::Single => match reply {
                JobReply::Ran(result) => match result {
                    Ok(stats) => {
                        self.stats.merge(&stats);
                        assert(self.at < n);
                        self.at = self.at + 1;
                        self.next()
                    },
                    Err(f) => self.fail(self.at, f, 0, 0),
                },
                _ => JobCommand::Finished(self.stats),
            },
            JobPhase::Preparing { output } => match reply {
                JobReply::PrepareFailed(cause) => {
                    let failure = StageFailure::new(FailureStage::Prepare, None, cause);
                    if self.discard {
                        let from: usize = self.at;
                        self.fail(output, failure, from, output)
                    } else {
                        self.fail(output, failure, 0, 0)
                    }
                },
                JobReply::Prepared => {
                    let end: usize = self.wave_end();
                    if output + 1 < end {
                        self.phase = JobPhase::Preparing { output: output + 1 };
                        JobCommand::Prepare {
                            output: output + 1,
                            threads: self.plan.per_output,
                        }
                    } else {
                        self.phase = JobPhase::Wave;
                        JobCommand::RunWave { first: self.at, end }
                    }
                },
                _ => JobCommand::Finished(self.stats),
            },
            JobPhase::Wave => match reply {
                JobReply::WaveRan(results) => self.tally(results),
                _ => JobCommand::Finished(self.stats),
            },
            JobPhase::Ended => JobCommand::Finished(self.stats),
        }
    }
}

/// Several outputs never run more at a time than the budget or their number
/// allows, each has a thread, and together they stay within the budget.
pub proof fn budget_is_shared(threads: usize, outputs: usize)
    requires
        threads >= 2,
        outputs >= 2,
    ensures
        ({
            let p = job_plan(threads, outputs);
            &&& 1 <= p.width <= threads
            &&& p.width <= outputs
            &&& p.per_output >= 1
            &&& p.width * p.per_output <= threads
        }),
{
    let width = workers(threads, outputs);
    let share = threads as int / width;
    assert(share >= 1 && width * share <= threads) by (nonlinear_arith)
        requires
            share == threads as int / width,
            1 <= width <= threads,
    ;
}

proof fn first_failure_range<E>(
    results: Seq<Result<ExecutorStats, StageFailure<E>>>,
    from: int,
)
    requires
        0 <= from <= results.len(),
    ensures
        from <= first_failure(results, from) <= results.len(),
        first_failure(results, from) < results.len() ==> results[first_failure(
            results,
            from,
        )] is Err,
        forall|i: int|
            from <= i < first_failure(results, from) ==> (#[trigger] results[i]) is Ok,
    decreases results.len() - from,
{
    if from < results.len() && results[from] is Ok {
        first_failure_range(results, from + 1);
    }
}

/// The failure that a wave reports is that of its earliest failing output, and
/// no later wave starts; a wave without a failure is followed by the next one.
pub proof fn earliest_failure_decides<E>(
    v: JobView,
    results: Vec<Result<ExecutorStats, StageFailure<E>>>,
    k: int,
)
    requires
        v.phase is Wave,
        v.phase_wf(),
        v.fits(JobReply::WaveRan(results)),
        0 <= k < results@.len(),
        results@[k] is Err,
        forall|i: int| 0 <= i < k ==> (#[trigger] results@[i]) is Ok,
    ensures
        v.step(JobReply::WaveRan(results)).1 == (JobCommand::Failed {
            failure: RunFailure::of_output(v.names[v.at + k], results@[k]->Err_0),
            discard_from: 0,
            discard_to: 0,
        }),
        v.step(JobReply::WaveRan(results)).0.phase is Ended,
{
    first_failure_range(results@, 0);
}

/// Waves follow each other without gap or overlap, in document order: a wave that
/// went well ends where the next begins, and the job ends at the last output.
pub proof fn waves_cover_the_outputs<E>(
    v: JobView,
    results: Vec<Result<ExecutorStats, StageFailure<E>>>,
)
    requires
        v.phase is Wave,
        v.phase_wf(),
        v.plan.waves,
        v.names.len() <= usize::MAX,
        v.fits(JobReply::WaveRan(results)),
        forall|i: int| 0 <= i < results@.len() ==> (#[trigger] results@[i]) is Ok,
    ensures
        v.at < v.wave_end() <= v.names.len(),
        v.wave_end() - v.at <= v.plan.width,
        ({
            let (w, command) = v.step(JobReply::WaveRan(results));
            &&& w.at == v.wave_end()
            &&& v.wave_end() == v.names.len() ==> command is Finished
            &&& v.wave_end() < v.names.len() ==> command == JobCommand::<E>::Prepare {
                output: v.wave_end() as usize,
                threads: v.plan.per_output,
            }
        }),
{
    first_failure_range(results@, 0);
}

/// What the caller sets goes before what the job says, and that before what the
/// host offers; zero counts as unset.
pub proof fn explicit_threads_go_first(n: usize, job: Option<usize>, host: usize)
    requires
        n > 0,
    ensures
        chosen_threads(Some(n), job, host) == n,
        chosen_threads(None, Some(n), host) == n,
        chosen_threads(Some(0), Some(n), host) == n,
        chosen_threads(None, None, host) == host,
        chosen_threads(Some(0), Some(0), host) == host,
{
}

/// The sum of one counter over a list of outputs.
pub open spec fn total_of(list: Seq<ExecutorStats>, counter: spec_fn(ExecutorStats) -> u64) -> int
    decreases list.len(),
{
    if list.len() == 0 {
        0
    } else {
        total_of(list.drop_last(), counter) + counter(list.last())
    }
}

/// Every counter is what it was, and what each output of a list adds to it.
pub open spec fn adds_up(
    before: ExecutorStats,
    list: Seq<ExecutorStats>,
    after: ExecutorStats,
) -> bool {
    &&& after.packets_read == before.packets_read + total_of(
        list,
        |s: ExecutorStats| s.packets_read,
    )
    &&& after.packets_copied == before.packets_copied + total_of(
        list,
        |s: ExecutorStats| s.packets_copied,
    )
    &&& after.packets_encoded == before.packets_encoded + total_of(
        list,
        |s: ExecutorStats| s.packets_encoded,
    )
    &&& after.frames_decoded == before.frames_decoded + total_of(
        list,
        |s: ExecutorStats| s.frames_decoded,
    )
    &&& after.frames_written == before.frames_written + total_of(
        list,
        |s: ExecutorStats| s.frames_written,
    )
    &&& after.packets_skipped == before.packets_skipped + total_of(
        list,
        |s: ExecutorStats| s.packets_skipped,
    )
}

/// The counters that the outputs of a wave ended with.
pub open spec fn ended_with<E>(results: Seq<Result<ExecutorStats, StageFailure<E>>>) -> Seq<
    ExecutorStats,
> {
    Seq::new(results.len(), |i: int| results[i]->Ok_0)
}

/// The counters that outputs ended with, as a reply says.
pub open spec fn told_by<E>(reply: JobReply<E>) -> Seq<ExecutorStats> {
    match reply {
        JobReply::Ran(Ok(s)) => seq![s],
        JobReply::WaveRan(results) => ended_with(results@),
        _ => Seq::empty(),
    }
}

/// A reply that speaks of no failure.
pub open spec fn went_well<E>(reply: JobReply<E>) -> bool {
    match reply {
        JobReply::Start | JobReply::Prepared => true,
        JobReply::Ran(result) => result is Ok,
        JobReply::WaveRan(results) => forall|i: int|
            0 <= i < results@.len() ==> (#[trigger] results@[i]) is Ok,
        JobReply::PrepareFailed(_) => false,
    }
}

/// A job after the first `k` replies, and what it asked for last.
pub open spec fn job_after<E>(v: JobView, replies: Seq<JobReply<E>>, k: int) -> (
    JobView,
    JobCommand<E>,
)
    decreases k,
{
    if k <= 0 {
        (v, JobCommand::Finished(v.stats))
    } else {
        job_after(v, replies, k - 1).0.step(replies[k - 1])
    }
}

/// The counters that the outputs of a job ended with, over the first `k` replies.
pub open spec fn all_told<E>(replies: Seq<JobReply<E>>, k: int) -> Seq<ExecutorStats>
    decreases k,
{
    if k <= 0 {
        Seq::empty()
    } else {
        all_told(replies, k - 1) + told_by(replies[k - 1])
    }
}

proof fn totals_join_up(
    a: Seq<ExecutorStats>,
    b: Seq<ExecutorStats>,
    counter: spec_fn(ExecutorStats) -> u64,
)
    ensures
        total_of(a + b, counter) == total_of(a, counter) + total_of(b, counter),
    decreases b.len(),
{
    if b.len() == 0 {
        assert(a + b =~= a);
    } else {
        totals_join_up(a, b.drop_last(), counter);
        assert((a + b).drop_last() =~= a + b.drop_last());
    }
}

proof fn additions_join_up(
    x: ExecutorStats,
    a: Seq<ExecutorStats>,
    y: ExecutorStats,
    b: Seq<ExecutorStats>,
    z: ExecutorStats,
)
    requires
        adds_up(x, a, y),
        adds_up(y, b, z),
    ensures
        adds_up(x, a + b, z),
{
    totals_join_up(a, b, |s: ExecutorStats| s.packets_read);
    totals_join_up(a, b, |s: ExecutorStats| s.packets_copied);
    totals_join_up(a, b, |s: ExecutorStats| s.packets_encoded);
    totals_join_up(a, b, |s: ExecutorStats| s.frames_decoded);
    totals_join_up(a, b, |s: ExecutorStats| s.frames_written);
    totals_join_up(a, b, |s: ExecutorStats| s.packets_skipped);
}

proof fn one_adds_up(x: ExecutorStats, s: ExecutorStats)
    requires
        x.can_merge(s),
    ensures
        adds_up(x, seq![s], x.merged(s)),
{
    let list = seq![s];
    assert(list.drop_last() =~= Seq::empty());
    assert(list.last() == s);
    assert forall|counter: spec_fn(ExecutorStats) -> u64| #[trigger] total_of(list, counter)
        == counter(s) by {
        assert(total_of(list.drop_last(), counter) == 0);
    }
}

proof fn wave_adds_up<E>(
    x: ExecutorStats,
    results: Seq<Result<ExecutorStats, StageFailure<E>>>,
)
    requires
        can_tally(x, results),
        forall|i: int| 0 <= i < results.len() ==> (#[trigger] results[i]) is Ok,
    ensures
        adds_up(x, ended_with(results), tallied(x, results)),
    decreases results.len(),
{
    if results.len() == 0 {
        assert(ended_with(results) =~= Seq::empty());
    } else {
        let s = results[0]->Ok_0;
        let rest = results.skip(1);
        assert(results[0] is Ok);
        assert forall|i: int| 0 <= i < rest.len() implies (#[trigger] rest[i]) is Ok by {
            assert(results[i + 1] is Ok);
        }
        one_adds_up(x, s);
        wave_adds_up(x.merged(s), rest);
        additions_join_up(
            x,
            seq![s],
            x.merged(s),
            ended_with(rest),
            tallied(x.merged(s), rest),
        );
        assert(seq![s] + ended_with(rest) =~= ended_with(results));
    }
}

/// A job adds up what its outputs did: as long as all goes well, every counter of the
/// job is the sum of that counter over the outputs that ended, one after the other or in
/// waves; outputs are asked for in order, each once, the next one being the first that
/// has not ended; and the job finishes, with these sums, when all have.
pub proof fn job_adds_up<E>(
    names: Seq<String>,
    threads: usize,
    discard: bool,
    replies: Seq<JobReply<E>>,
    k: int,
)
    requires
        0 <= k <= replies.len(),
        names.len() <= usize::MAX,
        forall|j: int|
            0 <= j < replies.len() ==> {
                &&& went_well(#[trigger] replies[j])
                &&& job_after(JobView::start(names, threads, discard), replies, j).0.fits(
                    replies[j],
                )
            },
    ensures
        ({
            let (v, command) = job_after(JobView::start(names, threads, discard), replies, k);
            let ended = all_told(replies, k);
            &&& adds_up(ExecutorStats::zero(), ended, v.stats)
            &&& v.at == ended.len() <= names.len()
            &&& v.names == names
            &&& v.phase_wf()
            &&& k > 0 ==> match command {
                JobCommand::RunSerial { output } => output == ended.len(),
                JobCommand::RunPipelined { output, .. } => output == ended.len(),
                JobCommand::Prepare { output, .. } => ended.len() <= output < names.len(),
                JobCommand::RunWave { first, end } => ended.len() == first < end <= names.len(),
                JobCommand::Finished(stats) => ended.len() == names.len() && stats == v.stats,
                JobCommand::Failed { .. } => false,
            }
        }),
    decreases k,
{
    let start = JobView::start(names, threads, discard);
    if k == 0 {
        assert(workers(threads, names.len() as usize) >= 1);
    } else {
        job_adds_up(names, threads, discard, replies, k - 1);
        let (v, _) = job_after(start, replies, k - 1);
        let reply = replies[k - 1];
        let before = all_told(replies, k - 1);
        assert(went_well(reply) && v.fits(reply));
        match reply {
            JobReply::Ran(Ok(s)) => {
                one_adds_up(v.stats, s);
                additions_join_up(ExecutorStats::zero(), before, v.stats, seq![s], v.stats.merged(s));
            },
            JobReply::WaveRan(results) => {
                first_failure_range(results@, 0);
                wave_adds_up(v.stats, results@);
                additions_join_up(
                    ExecutorStats::zero(),
                    before,
                    v.stats,
                    ended_with(results@),
                    tallied(v.stats, results@),
                );
            },
            _ => {
                assert(before + Seq::<ExecutorStats>::empty() =~= before);
            },
        }
    }
}

/// Outputs run at a time only where there are several and several threads, and then as
/// many as both allow; what is left of the budget is shared evenly, with less than one
/// thread for each left over. Anything else leaves one output at a time the whole budget,
/// and only one thread leaves it in one piece.
pub proof fn plan_uses_the_budget(threads: usize, outputs: usize)
    requires
        threads >= 1,
    ensures
        ({
            let p = job_plan(threads, outputs);
            &&& p.outputs == outputs
            &&& p.waves <==> threads > 1 && outputs > 1
            &&& p.pipelined <==> threads > 1
            &&& p.waves ==> p.width <= threads && p.width <= outputs && (p.width == threads
                || p.width == outputs)
            &&& p.waves ==> p.width * p.per_output <= threads < p.width * (p.per_output + 1)
            &&& !p.waves ==> p.width == 1 && p.per_output == threads
        }),
{
    if threads > 1 && outputs > 1 {
        let width = workers(threads, outputs);
        let share = threads as int / width;
        assert(share >= 1 && width * share <= threads && threads < width * (share + 1))
            by (nonlinear_arith)
            requires
                share == threads as int / width,
                1 <= width <= threads,
        ;
    }
}

/// A job fails with what stopped the output that failed, under that output's name: the
/// stage, the track, the counters and the error are its own, and nothing runs after. An
/// output that could not be prepared failed while preparing, and what was prepared of its
/// wave, and nothing else, is discarded where that was asked for.
pub proof fn failure_is_the_outputs_own<E>(
    v: JobView,
    output: usize,
    f: StageFailure<E>,
    cause: Cause<E>,
)
    requires
        v.phase_wf(),
        0 <= v.at <= v.names.len() <= usize::MAX,
    ensures
        v.phase is Single ==> ({
            let (w, command) = v.step(JobReply::Ran(Err(f)));
            &&& command is Failed
            &&& command->failure.output == Some(v.names[v.at])
            &&& command->failure.stage == f.stage
            &&& command->failure.track == f.track
            &&& command->failure.stats == f.stats
            &&& command->failure.error == f.error
            &&& command->discard_from == command->discard_to
            &&& w.phase is Ended
            &&& w.stats == v.stats
        }),
        v.phase == (JobPhase::Preparing { output }) ==> ({
            let (w, command) = v.step(JobReply::PrepareFailed(cause));
            &&& command is Failed
            &&& command->failure.output == Some(v.names[output as int])
            &&& command->failure.stage is Prepare
            &&& command->failure.track is None
            &&& command->failure.error == cause
            &&& !v.discard ==> command->discard_from == command->discard_to
            &&& v.discard ==> command->discard_from == v.at && command->discard_to == output
            &&& w.phase is Ended
        }),
{
}

/// An output can end in any graph. To stay at its end for a seek it needs a graph without
/// an encoder, and sources that all can be moved; each is refused for the one it lacks,
/// the encoder first.
pub proof fn parking_needs_seeking(nodes: Seq<DagNode>, sources: Seq<RoutedSource>)
    ensures
        eof_mode_allows(EofMode::Finish, nodes, sources) is Ok,
        ({
            let r = eof_mode_allows(EofMode::WaitForSeek, nodes, sources);
            let encodes = exists|i: int| 0 <= i < nodes.len() && (#[trigger] nodes[i]) is Encode;
            let stuck = exists|i: int|
                0 <= i < sources.len() && ((#[trigger] sources[i]).shape is Frames || (
                sources[i].shape is Packets && !sources[i].supports_seek));
            &&& encodes ==> r is Err && r->Err_0 is ParkWithEncoder
            &&& !encodes && stuck ==> r is Err && r->Err_0 is ParkNeedsSeek
            &&& !encodes && !stuck ==> r is Ok
        }),
{
    if exists|i: int| 0 <= i < sources.len() && ((#[trigger] sources[i]).shape is Frames || (
    sources[i].shape is Packets && !sources[i].supports_seek)) {
        let i = choose|i: int|
            0 <= i < sources.len() && ((#[trigger] sources[i]).shape is Frames || (
            sources[i].shape is Packets && !sources[i].supports_seek));
        assert(!sources[i].seekable_spec());
    }
}

/// One thread runs each output on it; several threads run a single output as one pipeline
/// with the whole budget, and prepare each of several outputs for its share. A job without
/// outputs is finished at once, with nothing done.
pub proof fn outputs_run_as_planned<E>(v: JobView, threads: usize)
    requires
        threads >= 1,
        v.names.len() <= usize::MAX,
        v.plan == job_plan(threads, v.names.len() as usize),
        0 <= v.at < v.names.len(),
        v.phase is Top,
    ensures
        ({
            let (w, c) = v.step::<E>(JobReply::Start);
            &&& threads == 1 ==> c is RunSerial && c->RunSerial_output == v.at
            &&& threads > 1 && v.names.len() == 1 ==> c is RunPipelined && c->RunPipelined_output
                == v.at && c->RunPipelined_threads == threads
            &&& threads > 1 && v.names.len() > 1 ==> c is Prepare && c->Prepare_output == v.at
                && c->Prepare_threads == v.plan.per_output
            &&& w.at == v.at && w.stats == v.stats && w.plan == v.plan && w.names == v.names
        }),
        ({
            let (w, c) = JobView::start(Seq::empty(), threads, v.discard).step::<E>(
                JobReply::Start,
            );
            &&& c is Finished && w.phase is Ended
            &&& c->Finished_0.packets_read == 0 && c->Finished_0.packets_copied == 0
            &&& c->Finished_0.packets_encoded == 0 && c->Finished_0.frames_decoded == 0
            &&& c->Finished_0.frames_written == 0 && c->Finished_0.packets_skipped == 0
        }),
{
}

} // verus!
