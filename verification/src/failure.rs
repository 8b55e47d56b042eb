//! Where a run failed.

use crate::error::JobError;
use crate::stats::ExecutorStats;
use vstd::prelude::*;

verus! {

/// The part of a pipeline in which a failure fired.
#[derive(Clone, Copy, Debug, PartialEq, Eq, Structural)]
pub enum FailureStage {
    /// Set-up, before any data flowed.
    Prepare,
    Source,
    Copy,
    Decode,
    Filter,
    Convert,
    Encode,
    Sink,
    /// Finalising an output whose whole stream had already landed.
    SinkFinish,
}

impl FailureStage {
    pub open spec fn name_spec(self) -> Seq<char> {
        match self {
            FailureStage::Prepare => "prepare"@,
            FailureStage::Source => "source"@,
            FailureStage::Copy => "copy"@,
            FailureStage::Decode => "decode"@,
            FailureStage::Filter => "filter"@,
            FailureStage::Convert => "convert"@,
            FailureStage::Encode => "encode"@,
            FailureStage::Sink => "sink"@,
            FailureStage::SinkFinish => "sink-finish"@,
        }
    }

    /// The stage's name in reports.
    pub fn name(&self) -> (r: &'static str)
        ensures
            r@ == self.name_spec(),
    {
        match self {
            FailureStage::Prepare => "prepare",
            FailureStage::Source => "source",
            FailureStage::Copy => "copy",
            FailureStage::Decode => "decode",
            FailureStage::Filter => "filter",
            FailureStage::Convert => "convert",
            FailureStage::Encode => "encode",
            FailureStage::Sink => "sink",
            FailureStage::SinkFinish => "sink-finish",
        }
    }
}

/// An error of the library, or one that a source, codec, filter or sink raised
/// and that is handed on untouched.
pub enum Cause<E> {
    Own(JobError),
    Raised(E),
}

/// An error with the stage and the track it belongs to, and what the output had
/// done by then.
pub struct StageFailure<E> {
    pub stage: FailureStage,
    pub track: Option<u32>,
    pub stats: ExecutorStats,
    pub error: Cause<E>,
}

impl<E> StageFailure<E> {
    /// An error at `stage`, before any counter was attached.
    pub open spec fn at(
        stage: FailureStage,
        track: Option<u32>,
        error: Cause<E>,
    ) -> StageFailure<E> {
        StageFailure { stage, track, stats: ExecutorStats::zero(), error }
    }

    pub fn new(stage: FailureStage, track: Option<u32>, error: Cause<E>) -> (r: Self)
        ensures
            r == Self::at(stage, track, error),
    {
        StageFailure { stage, track, stats: ExecutorStats::default(), error }
    }

    /// The same failure with the counters of the output it stopped.
    pub fn with_stats(self, stats: ExecutorStats) -> (r: Self)
        ensures
            r == (StageFailure { stats, ..self }),
    {
        StageFailure { stage: self.stage, track: self.track, stats, error: self.error }
    }
}

/// The failure of a job: which output, where in it, how far it got, and the
/// error that stopped it.
pub struct RunFailure<E> {
    /// `None` where the failure precedes any output.
    pub output: Option<String>,
    pub stage: FailureStage,
    pub track: Option<u32>,
    pub stats: ExecutorStats,
    pub error: Cause<E>,
}

impl<E> RunFailure<E> {
    /// A failure before any output was worked on.
    pub fn job_level(error: Cause<E>) -> (r: Self)
        ensures
            r == (RunFailure {
                output: None,
                stage: FailureStage::Prepare,
                track: None,
                stats: ExecutorStats::zero(),
                error,
            }),
    {
        RunFailure {
            output: None,
            stage: FailureStage::Prepare,
            track: None,
            stats: ExecutorStats::default(),
            error,
        }
    }

    /// The failure of the output `name`.
    pub open spec fn of_output(name: String, failure: StageFailure<E>) -> RunFailure<E> {
        RunFailure {
            output: Some(name),
            stage: failure.stage,
            track: failure.track,
            stats: failure.stats,
            error: failure.error,
        }
    }

    pub fn for_output(name: &String, failure: StageFailure<E>) -> (r: Self)
        ensures
            r == Self::of_output(*name, failure),
    {
        RunFailure {
            output: Some(name.clone()),
            stage: failure.stage,
            track: failure.track,
            stats: failure.stats,
            error: failure.error,
        }
    }

    /// The error that stopped the run, as it was raised.
    pub fn into_error(self) -> (r: Cause<E>)
        ensures
            r == self.error,
    {
        self.error
    }
}

/// An error keeps its identity through attribution: the job's failure still
/// holds the very error that a stage raised, with that stage and track.
pub proof fn attribution_keeps_the_error<E>(
    stage: FailureStage,
    track: Option<u32>,
    error: Cause<E>,
    stats: ExecutorStats,
    name: String,
)
    ensures
        ({
            let failure = StageFailure { stats, ..StageFailure::at(stage, track, error) };
            let run = RunFailure::of_output(name, failure);
            run.error == error && run.stage == stage && run.track == track && run.stats == stats
                && run.output == Some(name)
        }),
{
}

} // verus!
