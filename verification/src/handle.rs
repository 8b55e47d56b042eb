//! Controlling an output that runs in the background.

use crate::error::JobError;
use crate::failure::{Cause, FailureStage, RunFailure, StageFailure};
use crate::media::{MediaType, TimeBase};
use crate::sources::SourceShape;
use crate::staged::{Progress, SeekCmd};
use crate::stats::ExecutorStats;
use crate::track::{FrameStage, PipelineTrackInfo, TrackRuntime, TrackView};
use vstd::prelude::*;

verus! {

/// A stage of a running track.
#[derive(Clone, Copy, Debug, PartialEq, Eq, Structural)]
pub enum PipelineStageInfo {
    Copy,
    Decode,
    Filter,
    Convert,
    Encode,
}

/// A running track.
pub struct TopologyTrack {
    pub source_shape: SourceShape,
    pub media_type: MediaType,
    pub copy: bool,
    pub stages: Vec<PipelineStageInfo>,
}

/// How a running output is built.
pub struct PipelineTopology {
    pub output_name: String,
    pub packet_channel_capacity: usize,
    pub frame_channel_capacity: usize,
    pub tracks: Vec<TopologyTrack>,
}

/// The stages of a track, in the order data passes them.
pub open spec fn stage_infos(track: TrackView) -> Seq<PipelineStageInfo> {
    if track.copy {
        seq![PipelineStageInfo::Copy]
    } else {
        (if track.decoder is Some {
            seq![PipelineStageInfo::Decode]
        } else {
            Seq::empty()
        }) + track.frame_stages.map_values(
            |s: FrameStage|
                match s {
                    FrameStage::Filter => PipelineStageInfo::Filter,
                    FrameStage::PixConvert { .. } => PipelineStageInfo::Convert,
                },
        ) + (if track.encoder is Some {
            seq![PipelineStageInfo::Encode]
        } else {
            Seq::empty()
        })
    }
}

/// Describes a track that is about to run.
pub fn topology_track(track: &TrackRuntime, source_shape: SourceShape) -> (r: TopologyTrack)
    ensures
        r.source_shape == source_shape,
        r.media_type == track.kind,
        r.copy == track.copy,
        r.stages@ == stage_infos(track@),
{
    let mut stages: Vec<PipelineStageInfo> = Vec::new();
    if track.copy {
        stages.push(PipelineStageInfo::Copy);
    } else {
        if track.decoder.is_some() {
            stages.push(PipelineStageInfo::Decode);
        }
        let ghost head = stages@;
        let ghost kinds = track@.frame_stages.map_values(
            |s: FrameStage|
                match s {
                    FrameStage::Filter => PipelineStageInfo::Filter,
                    FrameStage::PixConvert { .. } => PipelineStageInfo::Convert,
                },
        );
        let mut i: usize = 0;
        assert(stages@ =~= head + kinds.take(0));
        while i < track.frame_stages.len()
            invariant
                i <= track.frame_stages@.len(),
                kinds == track@.frame_stages.map_values(
                    |s: FrameStage|
                        match s {
                            FrameStage::Filter => PipelineStageInfo::Filter,
                            FrameStage::PixConvert { .. } => PipelineStageInfo::Convert,
                        },
                ),
                stages@ == head + kinds.take(i as int),
            decreases track.frame_stages@.len() - i,
        {
            let ghost before = stages@;
            match &track.frame_stages[i] {
                FrameStage::Filter => {
                    stages.push(PipelineStageInfo::Filter);
                },
                FrameStage::PixConvert { .. } => {
                    stages.push(PipelineStageInfo::Convert);
                },
            }
            assert(stages@ =~= head + kinds.take(i + 1));
            i += 1;
        }
        assert(kinds.take(i as int) =~= kinds);
        if track.encoder.is_some() {
            stages.push(PipelineStageInfo::Encode);
        }
    }
    assert(stages@ =~= stage_infos(track@));
    TopologyTrack { source_shape, media_type: track.kind, copy: track.copy, stages }
}

/// How the background run came to its end.
pub enum JoinOutcome<E> {
    Returned(Result<ExecutorStats, StageFailure<E>>),
    Panicked,
    /// It was waited for before.
    Gone,
}

/// Controls a running output.
pub struct ExecutorHandle {
    pub output_name: String,
    /// The generation of the last seek.
    pub generation: u32,
    pub tracks: Vec<PipelineTrackInfo>,
    pub topology: PipelineTopology,
    pub abort_requested: bool,
    pub finished: bool,
}

/// The generation after another: they start at one and wrap around.
pub open spec fn next_generation(last: u32) -> u32 {
    if last == u32::MAX {
        0
    } else {
        (last + 1) as u32
    }
}

impl ExecutorHandle {
    /// Takes control of an output that is about to run.
    pub fn start(
        output_name: String,
        tracks: Vec<PipelineTrackInfo>,
        topology: PipelineTopology,
    ) -> (r: Self)
        ensures
            r == (ExecutorHandle {
                output_name,
                generation: 0,
                tracks,
                topology,
                abort_requested: false,
                finished: false,
            }),
    {
        ExecutorHandle {
            output_name,
            generation: 0,
            tracks,
            topology,
            abort_requested: false,
            finished: false,
        }
    }

    /// The tracks of the output, as they were when it started.
    pub fn pipeline_tracks(&self) -> (r: &Vec<PipelineTrackInfo>)
        ensures
            *r == self.tracks,
    {
        &self.tracks
    }

    /// How the output is built.
    pub fn pipeline_topology(&self) -> (r: &PipelineTopology)
        ensures
            *r == self.topology,
    {
        &self.topology
    }

    /// The fill of each track's packet queue, which is never more than it holds.
    pub fn pipeline_packet_queue_depths(&self, counted: &Vec<usize>) -> (r: Vec<usize>)
        ensures
            r@.len() == counted@.len(),
            forall|i: int|
                0 <= i < r@.len() ==> #[trigger] r@[i] == if counted@[i]
                    <= self.topology.packet_channel_capacity {
                    counted@[i]
                } else {
                    self.topology.packet_channel_capacity
                },
    {
        let cap: usize = self.topology.packet_channel_capacity;
        let mut r: Vec<usize> = Vec::new();
        let mut i: usize = 0;
        while i < counted.len()
            invariant
                i <= counted@.len(),
                r@.len() == i,
                cap == self.topology.packet_channel_capacity,
                forall|j: int|
                    0 <= j < i ==> #[trigger] r@[j] == if counted@[j] <= cap {
                        counted@[j]
                    } else {
                        cap
                    },
            decreases counted@.len() - i,
        {
            let depth: usize = if counted[i] <= cap {
                counted[i]
            } else {
                cap
            };
            r.push(depth);
            i += 1;
        }
        r
    }

    /// A new seek request, stamped with a generation of its own.
    pub fn seek_with_generation(&mut self, stream_idx: u32, pts: i64, time_base: TimeBase) -> (r:
        SeekCmd)
        ensures
            final(self).generation == next_generation(old(self).generation),
            r == (SeekCmd {
                stream_idx,
                pts,
                time_base,
                generation: next_generation(old(self).generation),
            }),
            *final(self) == (ExecutorHandle {
                generation: next_generation(old(self).generation),
                ..*old(self)
            }),
    {
        self.generation = self.generation.wrapping_add(1);
        SeekCmd { stream_idx, pts, time_base, generation: self.generation }
    }

    /// The generation of a request that was sent, or that nobody is there to
    /// take it.
    pub fn seek(cmd: &SeekCmd, sent: bool) -> (r: Result<u32, JobError>)
        ensures
            r == if sent {
                Ok::<u32, JobError>(cmd.generation)
            } else {
                Err(JobError::SeekClosed)
            },
    {
        if sent {
            Ok(cmd.generation)
        } else {
            Err(JobError::SeekClosed)
        }
    }

    /// The latest of the progress reports that have come in since the last look.
    pub fn try_progress(arrived: &Vec<Progress>) -> (r: Option<Progress>)
        ensures
            r == if arrived@.len() == 0 {
                None::<Progress>
            } else {
                Some(arrived@.last())
            },
    {
        let n: usize = arrived.len();
        if n == 0 {
            None
        } else {
            Some(arrived[n - 1])
        }
    }

    /// Whether the output has come to its end.
    pub fn has_finished(&self) -> (r: bool)
        ensures
            r == self.finished,
    {
        self.finished
    }

    /// The output has come to its end.
    pub fn mark_finished(&mut self)
        ensures
            *final(self) == (ExecutorHandle { finished: true, ..*old(self) }),
    {
        self.finished = true;
    }

    /// Asks the output to stop.
    pub fn request_abort(&mut self)
        ensures
            *final(self) == (ExecutorHandle { abort_requested: true, ..*old(self) }),
    {
        self.abort_requested = true;
    }

    /// The result of the output, once it was asked to stop and waited for.
    pub open spec fn result_spec<E>(self, outcome: JoinOutcome<E>) -> Result<
        ExecutorStats,
        RunFailure<E>,
    > {
        match outcome {
            JoinOutcome::Returned(Ok(stats)) => Ok(stats),
            JoinOutcome::Returned(Err(f)) => Err(RunFailure::of_output(self.output_name, f)),
            JoinOutcome::Panicked => Err(
                RunFailure::of_output(
                    self.output_name,
                    StageFailure::at(FailureStage::Sink, None, Cause::Own(JobError::WorkerPanicked)),
                ),
            ),
            JoinOutcome::Gone => Err(
                RunFailure::of_output(
                    self.output_name,
                    StageFailure::at(FailureStage::Prepare, None, Cause::Own(JobError::StoppedTwice)),
                ),
            ),
        }
    }

    /// The result of the output with where it failed, if it did.
    pub fn stop_reporting<E>(self, outcome: JoinOutcome<E>) -> (r: Result<
        ExecutorStats,
        RunFailure<E>,
    >)
        ensures
            r == self.result_spec(outcome),
    {
        match outcome {
            JoinOutcome::Returned(result) => match result {
                Ok(stats) => Ok(stats),
                Err(f) => Err(RunFailure::for_output(&self.output_name, f)),
            },
            JoinOutcome::Panicked => Err(
                RunFailure::for_output(
                    &self.output_name,
                    StageFailure::new(
                        FailureStage::Sink,
                        None,
                        Cause::Own(JobError::WorkerPanicked),
                    ),
                ),
            ),
            JoinOutcome::Gone => Err(
                RunFailure::for_output(
                    &self.output_name,
                    StageFailure::new(
                        FailureStage::Prepare,
                        None,
                        Cause::Own(JobError::StoppedTwice),
                    ),
                ),
            ),
        }
    }

    /// The result of the output, with the error as it was raised.
    pub fn stop<E>(self, outcome: JoinOutcome<E>) -> (r: Result<ExecutorStats, Cause<E>>)
        ensures
            r == match self.result_spec(outcome) {
                Ok(stats) => Ok::<ExecutorStats, Cause<E>>(stats),
                Err(f) => Err(f.error),
            },
    {
        match self.stop_reporting(outcome) {
            Ok(stats) => Ok(stats),
            Err(f) => Err(f.into_error()),
        }
    }
}

/// The generation after `n` seeks.
pub open spec fn generation_after(n: nat) -> u32
    decreases n,
{
    if n == 0 {
        0
    } else {
        next_generation(generation_after((n - 1) as nat))
    }
}

/// Generations count up from one and wrap around.
pub proof fn generations_count_up(n: nat)
    ensures
        generation_after(n) == n % 0x1_0000_0000,
    decreases n,
{
    if n > 0 {
        generations_count_up((n - 1) as nat);
    }
}

/// No two among as many seeks in a row as there are generations have the same one.
pub proof fn generations_are_told_apart(a: nat, b: nat)
    requires
        a < b < a + 0x1_0000_0000,
    ensures
        generation_after(a) != generation_after(b),
{
    generations_count_up(a);
    generations_count_up(b);
}

/// Both ways to stop an output tell the same story: the plain error is the very
/// one that the report holds.
pub proof fn stop_agrees_with_report<E>(handle: ExecutorHandle, outcome: JoinOutcome<E>)
    ensures
        outcome matches JoinOutcome::Returned(Err(f)) ==> handle.result_spec(outcome) matches Err(
            report,
        ) && report.error == f.error && report.stage == f.stage && report.track == f.track
            && report.stats == f.stats && report.output == Some(handle.output_name),
{
}

/// A track that copies shows just that. Any other shows a decoder first where it has one,
/// then its frame stages as they are, in order, then an encoder where it has one.
pub proof fn topology_shows_the_stages(track: TrackView)
    ensures
        ({
            let s = stage_infos(track);
            let d = if track.decoder is Some {
                1int
            } else {
                0int
            };
            let e = if track.encoder is Some {
                1int
            } else {
                0int
            };
            &&& track.copy ==> s.len() == 1 && s[0] is Copy
            &&& !track.copy ==> {
                &&& s.len() == d + track.frame_stages.len() + e
                &&& track.decoder is Some ==> s[0] is Decode
                &&& track.encoder is Some ==> s.last() is Encode
                &&& forall|i: int|
                    0 <= i < track.frame_stages.len() ==> {
                        &&& (#[trigger] track.frame_stages[i]) is Filter ==> s[d + i] is Filter
                        &&& track.frame_stages[i] is PixConvert ==> s[d + i] is Convert
                    }
            }
        }),
{
}

/// A run that came to nothing is a failure of its output, without a track and with nothing
/// done: one whose thread panicked failed at its sink, and one that was waited for before
/// is not to be had again. One that returned its counters is no failure.
pub proof fn lost_run_is_a_failure<E>(handle: ExecutorHandle, stats: ExecutorStats)
    ensures
        ({
            let r = handle.result_spec(JoinOutcome::<E>::Panicked);
            &&& r is Err
            &&& r->Err_0.output == Some(handle.output_name)
            &&& r->Err_0.stage is Sink
            &&& r->Err_0.track is None
            &&& r->Err_0.error is Own && r->Err_0.error->Own_0 is WorkerPanicked
        }),
        ({
            let r = handle.result_spec(JoinOutcome::<E>::Gone);
            &&& r is Err
            &&& r->Err_0.output == Some(handle.output_name)
            &&& r->Err_0.stage is Prepare
            &&& r->Err_0.track is None
            &&& r->Err_0.error is Own && r->Err_0.error->Own_0 is StoppedTwice
        }),
        handle.result_spec(JoinOutcome::<E>::Returned(Ok(stats))) is Ok,
        handle.result_spec(JoinOutcome::<E>::Returned(Ok(stats)))->Ok_0 == stats,
{
}

} // verus!
