use std::collections::VecDeque;

use oxideav_pipeline::dag::{Dag, DagNode, MuxTrack};
use oxideav_pipeline::decode_stage::{DecodeCommand, DecodeReply, DecodeStage};
use oxideav_pipeline::encode_stage::{EncodeCommand, EncodeReply, EncodeStage};
use oxideav_pipeline::executor::{EofMode, Executor};
use oxideav_pipeline::failure::{Cause, FailureStage};
use oxideav_pipeline::frame_stage::{FrameCommand, FrameReply, FrameWorker};
use oxideav_pipeline::handle::{
    topology_track, ExecutorHandle, JoinOutcome, PipelineStageInfo, PipelineTopology,
};
use oxideav_pipeline::instantiate::BuildStep;
use oxideav_pipeline::media::{CodecParameters, MediaType, StreamInfo, TimeBase};
use oxideav_pipeline::mux::{MuxCommand, MuxLoop, MuxReply};
use oxideav_pipeline::output::{split_sinks, OutputCommand, OutputReply, OutputRun};
use oxideav_pipeline::preparation::{OutputPreparation, PrepCommand};
use oxideav_pipeline::pump::{Command, Extra, FilterEmissions, PumpTrack, Reply, TrackPump};
use oxideav_pipeline::selection::CodecCapabilities;
use oxideav_pipeline::serial::{SerialCommand, SerialReply, SerialRun, SerialSource, SerialTrack};
use oxideav_pipeline::source_stage::{SourceCommand, SourceReply, SourceStage};
use oxideav_pipeline::sources::{RoutedSource, SourceShape};
use oxideav_pipeline::staged::{
    BarrierKind, ChannelCaps, Downstream, Fault, Progress, QueueBudget, SeekCmd, Sent, Shared,
};
use oxideav_pipeline::stats::ExecutorStats;
use oxideav_pipeline::topology::{
    plan_track, plan_workers, source_routes, wire_seeks, worker_failure_stage, worker_name,
    PlanTrack, WorkerRole,
};
use oxideav_pipeline::track::{FrameStage, SourceStreams, TrackRuntime};
use oxideav_pipeline::uri::SinkPlan;
use oxideav_pipeline::workers::{
    CopyCommand, CopyReply, CopyStage, FanoutCommand, FanoutReply, FanoutStage, Msg,
};

const FINITE_LEN: u64 = 25;

/// What travels through a queue of the rig.
#[derive(Clone, Debug, PartialEq)]
enum Parcel {
    Data(i64),
    Barrier(BarrierKind),
    StreamEnd,
    Eof,
}

fn message(p: &Parcel) -> Msg {
    match p {
        Parcel::Data(_) => Msg::Data { bytes: 32 },
        Parcel::Barrier(b) => Msg::Barrier(*b),
        Parcel::StreamEnd => Msg::StreamEnd,
        Parcel::Eof => Msg::Eof,
    }
}

/// What reached the sink.
#[derive(Clone, Debug, PartialEq)]
enum Event {
    Frame(i64),
    Barrier(BarrierKind),
    EndOfStream,
}

enum Worker {
    Decode(DecodeStage, DecodeReply<i64, String>, Option<i64>, Option<i64>),
    Forward(FanoutStage, FanoutReply<String>, Option<i64>),
}

/// One track from a source to an aggregate sink, every worker stepped in turn.
struct Rig {
    shared: Shared<String>,
    source: SourceStage,
    source_reply: Option<SourceReply<String>>,
    read: Option<i64>,
    left: VecDeque<i64>,
    all: Vec<i64>,
    seekable: bool,
    seeks: VecDeque<SeekCmd>,
    first: VecDeque<Parcel>,
    worker: Worker,
    worker_done: bool,
    second: VecDeque<Parcel>,
    mux: MuxLoop,
    mux_reply: Option<MuxReply<String>>,
    mux_item: Option<Parcel>,
    stopped: bool,
    events: Vec<Event>,
    reports: Vec<Progress>,
}

fn stream() -> StreamInfo {
    let mut params = CodecParameters::new("pcm".to_string(), MediaType::Audio);
    params.sample_rate = Some(8_000);
    StreamInfo {
        index: 0,
        time_base: TimeBase::new(1, 8_000),
        duration: None,
        start_time: Some(0),
        params,
    }
}

const RATE: i64 = 1_000;
const PACKET_SAMPLES: i64 = 100;
const PACKETS: i64 = 600;

/// The stream of a packet source that can be moved.
fn seekable_stream() -> StreamInfo {
    let mut s = stream();
    s.params.codec_id = "packet_seek_pcm".to_string();
    s.params.sample_rate = Some(RATE as u32);
    s.params.channels = Some(1);
    s.time_base = TimeBase::new(1, RATE);
    s.duration = Some(PACKETS * PACKET_SAMPLES);
    s
}

impl Rig {
    fn new(frames: bool, n: u64) -> Self {
        let pts: Vec<i64> = (0..n as i64).map(|i| i * 16).collect();
        Rig::over(frames, stream(), pts, false, false)
    }

    fn seekable(park: bool) -> Self {
        let pts: Vec<i64> = (0..PACKETS).map(|i| i * PACKET_SAMPLES).collect();
        Rig::over(false, seekable_stream(), pts, true, park)
    }

    fn over(frames: bool, from: StreamInfo, pts: Vec<i64>, seekable: bool, park: bool) -> Self {
        let to = Downstream::Aggregate { track: 0 };
        Rig {
            shared: Shared::new(0),
            source: SourceStage::new(frames, vec![0], vec![from], true, 0, park),
            source_reply: Some(SourceReply::Start),
            read: None,
            left: pts.iter().copied().collect(),
            all: pts,
            seekable,
            seeks: VecDeque::new(),
            first: VecDeque::new(),
            worker: if frames {
                Worker::Forward(FanoutStage::new(to), FanoutReply::Start, None)
            } else {
                Worker::Decode(DecodeStage::new(0, to, None), DecodeReply::Start, None, None)
            },
            worker_done: false,
            second: VecDeque::new(),
            mux: MuxLoop::new(1, true),
            mux_reply: Some(MuxReply::Start),
            mux_item: None,
            stopped: false,
            events: Vec::new(),
            reports: Vec::new(),
        }
    }

    fn step_source(&mut self) {
        let Some(reply) = self.source_reply.take() else {
            return;
        };
        let reply = match self.source.step(&mut self.shared, reply) {
            SourceCommand::Park => SourceReply::Done,
            SourceCommand::PollSeek => match self.seeks.pop_front() {
                Some(cmd) => SourceReply::Seek(cmd),
                None => SourceReply::NoSeek,
            },
            SourceCommand::Forward { .. } => SourceReply::Done,
            SourceCommand::SeekTo { pts, .. } => {
                if self.seekable {
                    let next = pts.clamp(0, PACKETS * PACKET_SAMPLES) / PACKET_SAMPLES;
                    self.left = self.all.iter().copied().skip(next as usize).collect();
                    SourceReply::Landed(next * PACKET_SAMPLES)
                } else {
                    SourceReply::Rejected
                }
            }
            SourceCommand::SendBarrier { kind, .. } => {
                self.first.push_back(Parcel::Barrier(kind));
                SourceReply::Sent
            }
            SourceCommand::ReadPacket => match self.left.pop_front() {
                Some(p) => {
                    self.read = Some(p);
                    SourceReply::Packet {
                        stream: 0,
                        bytes: 32,
                    }
                }
                None => SourceReply::Eof,
            },
            SourceCommand::ReadFrame => match self.left.pop_front() {
                Some(p) => {
                    self.read = Some(p);
                    SourceReply::Frame
                }
                None => SourceReply::Eof,
            },
            SourceCommand::SendData { .. } => {
                self.first.push_back(Parcel::Data(self.read.unwrap()));
                SourceReply::Sent
            }
            SourceCommand::SendStreamEnd { .. } => {
                self.first.push_back(Parcel::StreamEnd);
                SourceReply::Sent
            }
            SourceCommand::SendEof { .. } => {
                self.first.push_back(Parcel::Eof);
                SourceReply::Done
            }
            SourceCommand::Finished => return,
            SourceCommand::Failed(_) => panic!("source failed"),
        };
        self.source_reply = Some(reply);
    }

    fn step_worker(&mut self) {
        if self.worker_done {
            return;
        }
        loop {
            let second = &mut self.second;
            match &mut self.worker {
                Worker::Forward(stage, reply, held) => {
                    if matches!(reply, FanoutReply::Received(Msg::Disconnected)) {
                        match self.first.pop_front() {
                            Some(p) => {
                                if let Parcel::Data(d) = p {
                                    *held = Some(d);
                                }
                                *reply = FanoutReply::Received(message(&p));
                            }
                            None => return,
                        }
                    }
                    let now = std::mem::replace(reply, FanoutReply::Start);
                    *reply = match stage.step(&mut self.shared, now) {
                        FanoutCommand::Receive => FanoutReply::Received(Msg::Disconnected),
                        FanoutCommand::WriteFrame => {
                            second.push_back(Parcel::Data(held.take().unwrap()));
                            FanoutReply::Sent(Sent::Delivered)
                        }
                        FanoutCommand::SendUpdate => FanoutReply::Sent(Sent::Delivered),
                        FanoutCommand::SendBarrier(b) => {
                            second.push_back(Parcel::Barrier(b));
                            FanoutReply::Sent(Sent::Delivered)
                        }
                        FanoutCommand::SendStreamEnd => {
                            second.push_back(Parcel::StreamEnd);
                            FanoutReply::Sent(Sent::Delivered)
                        }
                        FanoutCommand::SendEof => {
                            second.push_back(Parcel::Eof);
                            FanoutReply::Sent(Sent::Delivered)
                        }
                        FanoutCommand::Finished => {
                            self.worker_done = true;
                            return;
                        }
                    };
                    if matches!(reply, FanoutReply::Received(_)) {
                        return;
                    }
                }
                Worker::Decode(stage, reply, held, pending) => {
                    if matches!(reply, DecodeReply::Received(Msg::Disconnected)) {
                        match self.first.pop_front() {
                            Some(p) => {
                                if let Parcel::Data(d) = p {
                                    *held = Some(d);
                                }
                                *reply = DecodeReply::Received(message(&p));
                            }
                            None => return,
                        }
                    }
                    let now = std::mem::replace(reply, DecodeReply::Start);
                    *reply = match stage.step(&mut self.shared, now) {
                        DecodeCommand::Receive => DecodeReply::Received(Msg::Disconnected),
                        DecodeCommand::SendPacket => {
                            *pending = held.take();
                            DecodeReply::Accepted { params: None }
                        }
                        DecodeCommand::ReceiveFrame => match pending.take() {
                            Some(f) => DecodeReply::Frame(f),
                            None => DecodeReply::NeedMore,
                        },
                        DecodeCommand::WriteFrame(f) => {
                            second.push_back(Parcel::Data(f));
                            DecodeReply::Sent(Sent::Delivered)
                        }
                        DecodeCommand::ResetDecoder => {
                            *pending = None;
                            DecodeReply::Done
                        }
                        DecodeCommand::FlushDecoder => DecodeReply::Done,
                        DecodeCommand::SendBarrier(b) => {
                            second.push_back(Parcel::Barrier(b));
                            DecodeReply::Sent(Sent::Delivered)
                        }
                        DecodeCommand::SendStreamEnd => {
                            second.push_back(Parcel::StreamEnd);
                            DecodeReply::Sent(Sent::Delivered)
                        }
                        DecodeCommand::SendUpdate(_) => DecodeReply::Sent(Sent::Delivered),
                        DecodeCommand::SendEof => {
                            second.push_back(Parcel::Eof);
                            DecodeReply::Done
                        }
                        DecodeCommand::Finished => {
                            self.worker_done = true;
                            return;
                        }
                        DecodeCommand::Failed(_) => panic!("decoder failed"),
                    };
                    if matches!(reply, DecodeReply::Received(_)) {
                        return;
                    }
                }
            }
        }
    }

    fn step_mux(&mut self) {
        let Some(reply) = self.mux_reply.take() else {
            return;
        };
        let reply = match self.mux.step(&mut self.shared, reply, 1) {
            MuxCommand::Poll { .. } => match self.second.pop_front() {
                None => MuxReply::Empty,
                Some(p) => {
                    let r = match &p {
                        Parcel::Data(d) => MuxReply::Frame {
                            stream: 0,
                            pts: Some(*d),
                        },
                        Parcel::Barrier(b) => MuxReply::Barrier(*b),
                        Parcel::StreamEnd => MuxReply::StreamEnd,
                        Parcel::Eof => MuxReply::Eof,
                    };
                    self.mux_item = Some(p);
                    r
                }
            },
            MuxCommand::WriteFrame => {
                if let Some(Parcel::Data(d)) = self.mux_item.take() {
                    self.events.push(Event::Frame(d));
                }
                MuxReply::Done
            }
            MuxCommand::Barrier(b) => {
                self.events.push(Event::Barrier(b));
                MuxReply::Done
            }
            MuxCommand::EndOfStream { .. } => {
                self.events.push(Event::EndOfStream);
                MuxReply::Done
            }
            MuxCommand::Report(p) => {
                self.reports.push(p);
                MuxReply::Done
            }
            MuxCommand::Park => MuxReply::Done,
            MuxCommand::Stop => {
                self.stopped = true;
                return;
            }
            _ => panic!("no packets reach this sink"),
        };
        self.mux_reply = Some(reply);
    }

    fn round(&mut self) {
        self.step_source();
        self.step_worker();
        self.step_mux();
    }

    fn run(&mut self, rounds: usize) {
        for _ in 0..rounds {
            if self.stopped {
                return;
            }
            self.round();
        }
    }

    fn until(&mut self, pred: impl Fn(&Rig) -> bool) {
        for _ in 0..10_000 {
            if pred(self) {
                return;
            }
            self.round();
        }
        panic!("the rig never got there");
    }

    fn frames(&self) -> u64 {
        self.events
            .iter()
            .filter(|e| matches!(e, Event::Frame(_)))
            .count() as u64
    }
}

#[test]
fn spawn_frame_source_delivers_all_frames() {
    let mut rig = Rig::new(true, FINITE_LEN);
    rig.run(10_000);
    assert!(rig.stopped, "Finished event never arrived");
    let stats = rig.shared.counters.snapshot();
    assert_eq!(rig.frames(), FINITE_LEN);
    assert_eq!(
        stats.frames_decoded, FINITE_LEN,
        "one frames_decoded tick per source frame (serial parity)"
    );
    assert_eq!(stats.frames_written, FINITE_LEN);
    assert_eq!(stats.packets_read, 0, "no packets exist on the frame path");
}

#[test]
fn spawn_packet_source_runs_decode_chain() {
    let mut rig = Rig::new(false, FINITE_LEN);
    rig.run(10_000);
    assert!(rig.stopped, "Finished event never arrived");
    let stats = rig.shared.counters.snapshot();
    assert_eq!(rig.frames(), FINITE_LEN);
    assert_eq!(stats.packets_read, FINITE_LEN);
    assert_eq!(stats.frames_decoded, FINITE_LEN);
    assert_eq!(stats.frames_written, FINITE_LEN);
    // Progress never goes back.
    for w in rig.reports.windows(2) {
        assert!(w[0].frames <= w[1].frames);
        assert!(w[0].packets_read <= w[1].packets_read);
    }
}

#[test]
fn seek_on_frame_source_rejected_with_matching_generation_and_stream_survives() {
    let mut rig = Rig::new(true, 1_000_000);
    rig.until(|r| r.frames() > 0);
    rig.seeks.push_back(SeekCmd {
        stream_idx: 0,
        pts: 1_000,
        time_base: TimeBase::new(1, 8_000),
        generation: 1,
    });
    rig.until(|r| r.events.iter().any(|e| matches!(e, Event::Barrier(_))));
    match rig.events.last().unwrap() {
        Event::Barrier(BarrierKind::SeekRejected { generation: g }) => {
            assert_eq!(*g, 1, "barrier must carry the dispatch generation");
        }
        other => panic!("expected SeekRejected, got {other:?}"),
    }
    let before = rig.frames();
    rig.until(|r| r.frames() > before);
    assert!(rig.shared.counters.snapshot().frames_written > 0);
}

fn display_handle() -> ExecutorHandle {
    ExecutorHandle::start(
        "@display".to_string(),
        Vec::new(),
        PipelineTopology {
            output_name: "@display".to_string(),
            packet_channel_capacity: 16,
            frame_channel_capacity: 8,
            tracks: Vec::new(),
        },
    )
}

#[test]
fn seekable_packet_source_emits_flush_and_continues_at_landing() {
    let mut rig = Rig::seekable(false);
    let mut handle = display_handle();
    let stream = seekable_stream();
    assert_eq!(stream.duration, Some(PACKETS * PACKET_SAMPLES));
    rig.until(|r| r.frames() > 0);
    let target = 30 * RATE;
    let cmd = handle.seek_with_generation(stream.index, target, stream.time_base);
    let generation = ExecutorHandle::seek(&cmd, true).ok().unwrap();
    rig.seeks.push_back(cmd);
    rig.until(|r| r.events.iter().any(|e| matches!(e, Event::Barrier(_))));
    let Some(Event::Barrier(BarrierKind::SeekFlush {
        generation: got_generation,
        landed_pts,
        time_base,
    })) = rig.events.last()
    else {
        panic!("expected SeekFlush")
    };
    assert_eq!(*got_generation, generation);
    assert_eq!(*landed_pts, target);
    assert_eq!(*time_base, stream.time_base);
    let seen = rig.events.len();
    rig.until(|r| r.events.len() > seen);
    let Some(Event::Frame(pts)) = rig.events.last() else {
        panic!("expected post-seek frame")
    };
    assert!(*pts >= target);
    assert!(*pts < target + RATE);
}

#[test]
fn wait_for_seek_parks_at_eof_and_resumes_without_rebuilding() {
    let mut rig = Rig::seekable(true);
    let mut handle = display_handle();
    let stream = seekable_stream();
    rig.until(|r| r.events.contains(&Event::EndOfStream));
    rig.run(200);
    assert!(!rig.stopped, "WaitForSeek executor must remain alive at EOF");
    let target = 10 * RATE;
    let cmd = handle.seek_with_generation(stream.index, target, stream.time_base);
    let generation = ExecutorHandle::seek(&cmd, true).ok().unwrap();
    rig.seeks.push_back(cmd);
    rig.until(|r| r.events.iter().any(|e| matches!(e, Event::Barrier(_))));
    let Some(Event::Barrier(BarrierKind::SeekFlush {
        generation: got_generation,
        landed_pts,
        ..
    })) = rig.events.last()
    else {
        panic!("expected SeekFlush after retained EOF")
    };
    assert_eq!(*got_generation, generation);
    assert_eq!(*landed_pts, target);
    let seen = rig.events.len();
    rig.until(|r| r.events.len() > seen);
    let Some(Event::Frame(pts)) = rig.events.last() else {
        panic!("expected frame after seek from retained EOF")
    };
    assert!(*pts >= target);
    assert!(!rig.stopped, "executor must still be live after resumed seek");
    rig.shared.abort.request_abort();
    rig.run(1_000);
    assert!(rig.stopped);
    assert!(rig.shared.abort.first.is_none());
}

/// An output that plays the audio of one packet source, perhaps encoded first.
fn display_graph(uri: &str, codec: Option<&str>) -> Dag {
    let mut dag = Dag::new();
    let mut at = dag
        .push(DagNode::Demuxer {
            source: uri.to_string(),
        })
        .unwrap();
    at = dag.push(DagNode::Decode { upstream: at }).unwrap();
    if let Some(codec) = codec {
        at = dag
            .push(DagNode::Encode {
                upstream: at,
                codec: codec.to_string(),
                params: "{}".to_string(),
            })
            .unwrap();
    }
    let mux = dag
        .push(DagNode::Mux {
            target: "@display".to_string(),
            tracks: vec![MuxTrack {
                kind: MediaType::Audio,
                copy: false,
                upstream: at,
            }],
        })
        .unwrap();
    assert!(dag.add_root("@display".to_string(), mux));
    dag
}

#[test]
fn wait_for_seek_rejects_non_seekable_source_during_spawn() {
    let config = Executor::new().with_eof_mode(EofMode::WaitForSeek).with_threads(2);
    let dag = display_graph("noseekpack://fixture", None);
    assert!(config.check_eof_mode(&dag, &vec![]).is_ok());
    let packets = |supports_seek| RoutedSource {
        shape: SourceShape::Packets,
        supports_seek,
    };
    let result = config.check_eof_mode(&dag, &vec![packets(false)]);
    let Err(error) = result else {
        panic!("WaitForSeek unexpectedly accepted a non-seekable source")
    };
    assert!(error
        .message()
        .contains("requires every routed source to support seeking"));
    // What can be moved, and what cannot.
    assert!(config.check_eof_mode(&dag, &vec![packets(true)]).is_ok());
    let of = |shape| RoutedSource {
        shape,
        supports_seek: true,
    };
    assert!(config.check_eof_mode(&dag, &vec![of(SourceShape::Demuxer)]).is_ok());
    assert!(config.check_eof_mode(&dag, &vec![of(SourceShape::Frames)]).is_err());
    assert!(Executor::new().check_eof_mode(&dag, &vec![packets(false)]).is_ok());
}

#[test]
fn wait_for_seek_rejects_encoder_graph_before_codec_instantiation() {
    let config = Executor::new().with_eof_mode(EofMode::WaitForSeek).with_threads(2);
    let dag = display_graph("seekpack://fixture", Some("not_registered_on_purpose"));
    let result = config.check_eof_mode(&dag, &vec![]);
    let Err(error) = result else {
        panic!("WaitForSeek unexpectedly accepted an encoder graph")
    };
    assert!(error.message().contains("graphs containing encoders"));
    assert!(dag.is_valid() && dag.encodes());
}

#[test]
fn spawned_handle_reports_resolved_topology_and_caps() {
    let config = Executor::new()
        .with_channel_caps(ChannelCaps {
            packets: 257,
            frames: 9,
        })
        .with_threads(2);
    let (packets, frames) = config.capacities();
    let runtime = TrackRuntime::new(
        "runtime-topology".to_string(),
        oxideav_pipeline::dag::ResolvedSelector::any(),
        MediaType::Audio,
        true,
        Vec::new(),
    );
    let topology = PipelineTopology {
        output_name: "@null".to_string(),
        packet_channel_capacity: packets,
        frame_channel_capacity: frames,
        tracks: vec![topology_track(&runtime, SourceShape::Demuxer)],
    };
    let handle = ExecutorHandle::start(
        "@null".to_string(),
        vec![runtime.pipeline_info()],
        topology,
    );

    let topology = handle.pipeline_topology();
    assert_eq!(topology.output_name, "@null");
    assert_eq!(topology.packet_channel_capacity, 257);
    assert_eq!(topology.frame_channel_capacity, 9);
    assert_eq!(topology.tracks.len(), 1);

    let track = &topology.tracks[0];
    assert_eq!(track.source_shape, SourceShape::Demuxer);
    assert_eq!(track.media_type, MediaType::Audio);
    assert!(track.copy);
    assert!(matches!(track.stages.as_slice(), [PipelineStageInfo::Copy]));

    let depths = handle.pipeline_packet_queue_depths(&vec![300]);
    assert_eq!(depths.len(), topology.tracks.len());
    assert!(depths
        .iter()
        .all(|depth| *depth <= topology.packet_channel_capacity));
    assert_eq!(handle.pipeline_tracks()[0].source_uri, "runtime-topology");

    let outcome: JoinOutcome<String> = JoinOutcome::Returned(Ok(ExecutorStats::default()));
    assert!(handle.stop(outcome).is_ok());
}

/// Runs a typed source on one thread into a sink that counts frames.
fn run_serial(frames: bool, n: u64) -> (ExecutorStats, u64) {
    let mut run = SerialRun::new(
        vec![SerialSource { frames, eof: false }],
        vec![SerialTrack {
            source: 0,
            stream: 0,
        }],
        false,
    );
    let mut pump: TrackPump<u64> = TrackPump::new(PumpTrack {
        index: 0,
        kind: MediaType::Audio,
        copy: false,
        has_decoder: !frames,
        stages: Vec::new(),
        has_encoder: false,
    });
    let mut left = n;
    let mut delivered = 0;
    let mut reply: SerialReply<String> = SerialReply::Start;
    loop {
        reply = match run.step(reply) {
            SerialCommand::StartSink | SerialCommand::FinishSink => SerialReply::Done,
            SerialCommand::ReadPacket { .. } | SerialCommand::ReadFrame { .. } if left == 0 => {
                SerialReply::Eof
            }
            SerialCommand::ReadPacket { .. } => {
                left -= 1;
                SerialReply::Packet { stream: 0 }
            }
            SerialCommand::ReadFrame { .. } => {
                left -= 1;
                SerialReply::Frame
            }
            command @ (SerialCommand::FeedPacket { .. }
            | SerialCommand::FeedFrame { .. }
            | SerialCommand::Drain { .. }) => {
                let mut pending = None;
                match command {
                    SerialCommand::FeedPacket { .. } => {
                        pending = Some(left);
                        pump.feed_packet();
                    }
                    SerialCommand::FeedFrame { .. } => pump.feed_frame(left),
                    _ => pump.drain(),
                }
                let mut inner: Reply<u64, String> = Reply::Start;
                loop {
                    inner = match pump.step(&mut run.stats, inner) {
                        Command::SendPacket | Command::FlushDecoder => Reply::Done,
                        Command::ReceiveFrame => match pending.take() {
                            Some(f) => Reply::Frame(f),
                            None => Reply::NoMore,
                        },
                        Command::WriteFrame { .. } => {
                            delivered += 1;
                            Reply::Done
                        }
                        Command::Finished => break,
                        _ => panic!("nothing else on a direct track"),
                    };
                }
                SerialReply::Done
            }
            SerialCommand::Finished(stats) => return (stats, delivered),
            SerialCommand::Failed { .. } => panic!("run"),
        };
    }
}

#[test]
fn typed_source_run_stats_parity_serial_vs_pipelined() {
    for frames in [true, false] {
        let (stats, delivered) = run_serial(frames, FINITE_LEN);
        let serial = (
            stats.packets_read,
            stats.frames_decoded,
            stats.frames_written,
            delivered,
        );
        let mut rig = Rig::new(frames, FINITE_LEN);
        rig.run(10_000);
        let s = rig.shared.counters.snapshot();
        let piped = (s.packets_read, s.frames_decoded, s.frames_written, rig.frames());
        assert_eq!(serial, piped, "serial vs pipelined stats diverged");
    }
}

#[test]
fn serial_sources_take_turns_and_tracks_drain_in_order() {
    let mut run = SerialRun::new(
        vec![
            SerialSource {
                frames: false,
                eof: false,
            },
            SerialSource {
                frames: true,
                eof: false,
            },
        ],
        vec![
            SerialTrack { source: 0, stream: 1 },
            SerialTrack { source: 1, stream: 0 },
            SerialTrack { source: 0, stream: 1 },
        ],
        true,
    );
    let mut log = Vec::new();
    let mut replies: VecDeque<SerialReply<&str>> = VecDeque::from(vec![
        SerialReply::Start,
        SerialReply::Done,                  // sink started
        SerialReply::Packet { stream: 1 },  // source 0
        SerialReply::Done,                  // track 0
        SerialReply::Done,                  // track 2
        SerialReply::Frame,                 // source 1
        SerialReply::Done,                  // track 1
        SerialReply::Packet { stream: 9 },  // source 0, nobody's
        SerialReply::Eof,                   // source 1
        SerialReply::Eof,                   // source 0
        SerialReply::Done,
        SerialReply::Done,
        SerialReply::Done,                  // drained
        SerialReply::Error("disk full"),    // finishing
    ]);
    while let Some(reply) = replies.pop_front() {
        match run.step(reply) {
            SerialCommand::StartSink => log.push("start".to_string()),
            SerialCommand::ReadPacket { source } => log.push(format!("packet {source}")),
            SerialCommand::ReadFrame { source } => log.push(format!("frame {source}")),
            SerialCommand::FeedPacket { track } => log.push(format!("feed {track}")),
            SerialCommand::FeedFrame { track } => log.push(format!("feed frame {track}")),
            SerialCommand::Drain { track } => log.push(format!("drain {track}")),
            SerialCommand::FinishSink => log.push("finish".to_string()),
            SerialCommand::Finished(_) => log.push("finished".to_string()),
            SerialCommand::Failed { failure, abandon } => {
                assert_eq!(failure.stage, FailureStage::SinkFinish);
                assert_eq!(failure.stats.packets_read, 2);
                assert_eq!(failure.stats.frames_decoded, 1);
                assert!(abandon);
                log.push("failed".to_string());
            }
        }
    }
    assert_eq!(
        log,
        vec![
            "start", "packet 0", "feed 0", "feed 2", "frame 1", "feed frame 1", "packet 0",
            "frame 1", "packet 0", "drain 0", "drain 1", "drain 2", "finish", "failed"
        ]
    );
}

fn plan(frames: bool, copy: bool, stages: Vec<FrameStage>, has_encoder: bool) -> PlanTrack {
    PlanTrack {
        source: 0,
        stream: 0,
        frames,
        copy,
        has_decoder: !frames && !copy,
        stages,
        has_encoder,
        extras_base: 10,
        extra_counts: vec![0, 2, 1],
    }
}

#[test]
fn tracks_are_split_into_workers() {
    let conv = FrameStage::PixConvert {
        from: oxideav_core::PixelFormat::Rgba,
        width: 1,
        height: 1,
        target: oxideav_core::PixelFormat::Rgb24,
    };
    let f = FrameStage::Filter;
    let t = plan(false, false, vec![f, conv, f, f], true);
    let workers = plan_track(2, &t).ok().unwrap();
    let names: Vec<String> = workers.iter().map(|w| worker_name(w, &t.stages)).collect();
    assert_eq!(
        names,
        vec!["decode-2", "filter-2-0", "convert-2-1", "filter-2-2", "filter-2-3", "encode-2"]
    );
    let bases: Vec<Option<u32>> = workers
        .iter()
        .filter_map(|w| match w.role {
            WorkerRole::Frame { extras_base, .. } => Some(extras_base),
            _ => None,
        })
        .collect();
    assert_eq!(bases, vec![None, None, Some(10), Some(12)]);
    assert_eq!(workers.iter().filter(|w| w.terminal).count(), 1);
    assert!(workers.last().unwrap().terminal);
    assert_eq!(
        worker_failure_stage(&workers[2].role, &t.stages),
        FailureStage::Convert
    );

    let direct = plan(false, false, vec![], false);
    let w = plan_track(0, &direct).ok().unwrap();
    assert_eq!(w[0].role, WorkerRole::Decode { announce: true });
    let fwd = plan(true, false, vec![], false);
    let w = plan_track(7, &fwd).ok().unwrap();
    assert_eq!(w[0].role, WorkerRole::Forward);
    assert_eq!(worker_name(&w[0], &fwd.stages), "frame-terminal-7");
    let copy = plan(false, true, vec![], false);
    assert_eq!(plan_track(0, &copy).ok().unwrap()[0].role, WorkerRole::Copy);

    let bad = vec![direct, plan(true, true, vec![], false)];
    let (track, e) = plan_workers(&bad).err().unwrap();
    assert_eq!(track, 1);
    assert!(e.message().starts_with("pipeline: copy track over a frame-shape source"));
    let mut no_decoder = plan(false, false, vec![f], false);
    no_decoder.has_decoder = false;
    let (_, e) = plan_workers(&vec![no_decoder]).err().unwrap();
    assert_eq!(
        e.message(),
        "pipeline: non-copy track without a decoder is not supported"
    );
    assert_eq!(source_routes(&bad, 0), vec![0, 1]);
    assert_eq!(source_routes(&bad, 1), Vec::<usize>::new());
    assert_eq!(wire_seeks(3, true, 0).siblings, 2);
    assert_eq!(wire_seeks(3, true, 2).siblings, 0);
    assert!(!wire_seeks(3, false, 0).has_seek);
}

#[test]
fn outputs_report_what_stopped_them() {
    let mut shared: Shared<&str> = Shared::new(0);
    let mut run = OutputRun::new(vec![plan(false, false, vec![], false)], true, true);
    assert!(matches!(
        run.step(&mut shared, OutputReply::Start, 0),
        OutputCommand::StartSink
    ));
    assert!(matches!(
        run.step(&mut shared, OutputReply::Done, 0),
        OutputCommand::OpenTrackSinks
    ));
    assert!(matches!(
        run.step(&mut shared, OutputReply::TrackSinks(None), 0),
        OutputCommand::Run { independent: false }
    ));
    shared.counters.frames_written = 3;
    assert!(matches!(
        run.step(&mut shared, OutputReply::Done, 0),
        OutputCommand::Join
    ));
    assert!(shared.abort.is_aborted());
    assert!(matches!(
        run.step(&mut shared, OutputReply::Done, 0),
        OutputCommand::FinishSink
    ));
    match run.step(&mut shared, OutputReply::Done, 77) {
        OutputCommand::ReportEnd(p) => {
            assert!(p.eof);
            assert_eq!(p.frames, 3);
            assert_eq!(p.elapsed_micros, 77);
        }
        _ => panic!("the end is reported"),
    }
    // A full queue is tried a hundred times.
    let mut tries = 1;
    let mut reply = OutputReply::Full;
    let stats = loop {
        match run.step(&mut shared, reply, 0) {
            OutputCommand::Park => reply = OutputReply::Done,
            OutputCommand::ReportEnd(_) => {
                tries += 1;
                reply = OutputReply::Full;
            }
            OutputCommand::Finished(stats) => break stats,
            _ => panic!("only reports are left"),
        }
    };
    assert_eq!(tries, 100);
    assert_eq!(stats.frames_written, 3);
}

#[test]
fn a_recorded_failure_keeps_the_sink_from_finishing() {
    let mut shared: Shared<&str> = Shared::new(0);
    let bare = PlanTrack {
        extra_counts: vec![],
        ..plan(false, false, vec![], false)
    };
    let mut run = OutputRun::new(vec![bare], true, false);
    run.step(&mut shared, OutputReply::Start, 0);
    run.step(&mut shared, OutputReply::Done, 0);
    run.step(&mut shared, OutputReply::TrackSinks(Some(1)), 0);
    shared.counters.packets_read = 9;
    shared
        .abort
        .record_failure(oxideav_pipeline::failure::StageFailure::new(
            FailureStage::Encode,
            Some(0),
            Cause::Raised("boom"),
        ));
    assert!(matches!(
        run.step(&mut shared, OutputReply::Done, 0),
        OutputCommand::Join
    ));
    match run.step(&mut shared, OutputReply::Done, 0) {
        OutputCommand::Failed { failure, abandon } => {
            assert!(abandon);
            assert_eq!(failure.stage, FailureStage::Encode);
            assert_eq!(failure.stats.packets_read, 9);
            assert!(matches!(failure.error, Cause::Raised("boom")));
        }
        _ => panic!("the failure decides"),
    }
}

#[test]
fn sinks_of_the_tracks_own_must_match_the_tracks() {
    let none = PlanTrack {
        extra_counts: vec![0],
        ..plan(false, false, vec![], false)
    };
    let two = vec![none, plan(false, false, vec![], false)];
    assert_eq!(split_sinks(None, &two).ok(), Some(false));
    let e = split_sinks(Some(1), &two).err().unwrap();
    assert_eq!(
        e.message(),
        "pipeline: JobSink returned 1 TrackSinks for 2 pipeline tracks"
    );
    let e = split_sinks(Some(2), &two).err().unwrap();
    assert_eq!(
        e.message(),
        "pipeline: independent TrackSinks do not yet support multi-port filter extras"
    );
    assert_eq!(split_sinks(Some(0), &vec![]).ok(), Some(true));
}

#[test]
fn a_source_counts_bytes_in_and_holds_off_at_the_ceiling() {
    let mut shared: Shared<&str> = Shared::new(100);
    let mut s = SourceStage::new(false, vec![0, 0], vec![], false, 0, false);
    assert!(matches!(
        s.step(&mut shared, SourceReply::Start),
        SourceCommand::ReadPacket
    ));
    let big = SourceReply::Packet {
        stream: 0,
        bytes: 150,
    };
    assert!(matches!(
        s.step(&mut shared, big),
        SourceCommand::SendData { route: 0 }
    ));
    assert_eq!(shared.budget, QueueBudget { in_flight: 150, max: 100 });
    assert!(matches!(
        s.step(&mut shared, SourceReply::Sent),
        SourceCommand::SendData { route: 1 }
    ));
    assert_eq!(shared.budget.in_flight, 300);
    assert!(matches!(
        s.step(&mut shared, SourceReply::Sent),
        SourceCommand::Park
    ));
    // Both consumers take theirs.
    let mut copy = CopyStage::new(Downstream::Channel);
    let start: CopyReply<&str> = CopyReply::Start;
    assert!(matches!(copy.step(&mut shared, start), CopyCommand::Receive));
    let got: CopyReply<&str> = CopyReply::Received(Msg::Data { bytes: 150 });
    assert!(matches!(copy.step(&mut shared, got), CopyCommand::WritePacket));
    assert_eq!(shared.budget.in_flight, 150);
    shared.budget.release(150);
    assert!(matches!(
        s.step(&mut shared, SourceReply::Done),
        SourceCommand::ReadPacket
    ));
    // A consumer that is gone stops the source, and the bytes come out again.
    let last = SourceReply::Packet {
        stream: 0,
        bytes: 10,
    };
    s.step(&mut shared, last);
    assert!(matches!(
        s.step(&mut shared, SourceReply::Closed),
        SourceCommand::SendEof { route: 0 }
    ));
    assert_eq!(shared.budget.in_flight, 0);
    assert!(shared.abort.is_aborted());
}

#[test]
fn a_seek_reaches_siblings_before_it_moves_the_source() {
    let mut shared: Shared<&str> = Shared::new(0);
    let mut s = SourceStage::new(false, vec![0, 1], vec![stream()], true, 2, false);
    s.step(&mut shared, SourceReply::Start);
    let cmd = SeekCmd {
        stream_idx: 0,
        pts: 5,
        time_base: TimeBase::new(1, 8_000),
        generation: 9,
    };
    assert!(matches!(
        s.step(&mut shared, SourceReply::Seek(cmd)),
        SourceCommand::Forward { sibling: 0, .. }
    ));
    assert!(matches!(
        s.step(&mut shared, SourceReply::Done),
        SourceCommand::Forward { sibling: 1, .. }
    ));
    assert!(matches!(
        s.step(&mut shared, SourceReply::Done),
        SourceCommand::SeekTo { stream: 0, pts: 5 }
    ));
    for route in 0..2usize {
        let reply = if route == 0 {
            SourceReply::Landed(4)
        } else {
            SourceReply::Sent
        };
        match s.step(&mut shared, reply) {
            SourceCommand::SendBarrier { route: r, kind } => {
                assert_eq!(r, route);
                assert_eq!(kind.generation(), 9);
                assert!(matches!(kind, BarrierKind::SeekFlush { landed_pts: 4, .. }));
            }
            _ => panic!("one barrier per route"),
        }
    }
    assert!(matches!(
        s.step(&mut shared, SourceReply::Sent),
        SourceCommand::PollSeek
    ));
}

#[test]
fn a_frame_worker_sends_extras_then_frames() {
    let mut shared: Shared<&str> = Shared::new(0);
    let mut w: FrameWorker<i64> =
        FrameWorker::new(1, FrameStage::Filter, Downstream::Channel, Some(6));
    w.step(&mut shared, FrameReply::Start);
    assert!(matches!(
        w.step(&mut shared, FrameReply::Received(Msg::Data { bytes: 0 })),
        FrameCommand::Materialise
    ));
    assert!(matches!(
        w.step(&mut shared, FrameReply::Frame(5)),
        FrameCommand::RunStage(5)
    ));
    let out = FilterEmissions {
        primary: vec![1, 2],
        extras: vec![
            Extra {
                port: 1,
                kind: MediaType::Video,
                frame: 9,
            },
            Extra {
                port: 2,
                kind: MediaType::Audio,
                frame: 8,
            },
        ],
    };
    assert!(matches!(
        w.step(&mut shared, FrameReply::Emitted(out)),
        FrameCommand::WriteExtra {
            stream: 6,
            kind: MediaType::Video,
            frame: 9
        }
    ));
    assert!(matches!(
        w.step(&mut shared, FrameReply::Sent(Sent::Delivered)),
        FrameCommand::WriteExtra {
            stream: 7,
            kind: MediaType::Audio,
            frame: 8
        }
    ));
    assert!(matches!(
        w.step(&mut shared, FrameReply::Sent(Sent::Delivered)),
        FrameCommand::WriteFrame(1)
    ));
    assert!(matches!(
        w.step(&mut shared, FrameReply::Sent(Sent::Delivered)),
        FrameCommand::WriteFrame(2)
    ));
    assert!(matches!(
        w.step(&mut shared, FrameReply::Sent(Sent::Delivered)),
        FrameCommand::Receive
    ));
    // A seek that moved the source resets the filter first.
    let b = BarrierKind::SeekFlush {
        generation: 3,
        landed_pts: 0,
        time_base: TimeBase::new(1, 1),
    };
    assert!(matches!(
        w.step(&mut shared, FrameReply::Received(Msg::Barrier(b))),
        FrameCommand::ResetStage
    ));
    assert!(matches!(
        w.step(&mut shared, FrameReply::Done),
        FrameCommand::SendExtraBarrier(_)
    ));
    assert!(matches!(
        w.step(&mut shared, FrameReply::Done),
        FrameCommand::SendBarrier(_)
    ));
    // A failing filter fails the track.
    w.step(&mut shared, FrameReply::Sent(Sent::Delivered));
    w.step(&mut shared, FrameReply::Received(Msg::Eof));
    match w.step(&mut shared, FrameReply::Error("bad")) {
        FrameCommand::Failed(f) => {
            assert_eq!(f.stage, FailureStage::Filter);
            assert_eq!(f.track, Some(1));
        }
        _ => panic!("flushing failed"),
    }
}

#[test]
fn an_encoder_is_emptied_at_a_seek_and_at_the_end() {
    let mut shared: Shared<&str> = Shared::new(0);
    let mut e = EncodeStage::new(2, Downstream::Aggregate { track: 2 });
    let r = |x: EncodeReply<i64, &'static str>| x;
    e.step(&mut shared, r(EncodeReply::Start));
    e.step(&mut shared, r(EncodeReply::Received(Msg::Data { bytes: 0 })));
    assert!(matches!(
        e.step(&mut shared, r(EncodeReply::Frame(1))),
        EncodeCommand::SendFrame(1)
    ));
    e.step(&mut shared, r(EncodeReply::Done));
    assert!(matches!(
        e.step(&mut shared, r(EncodeReply::Packet)),
        EncodeCommand::WritePacket
    ));
    e.step(&mut shared, r(EncodeReply::Sent(Sent::Delivered)));
    assert_eq!(shared.counters.packets_encoded, 1);
    assert!(matches!(
        e.step(&mut shared, r(EncodeReply::NoMore)),
        EncodeCommand::Receive
    ));
    let b = BarrierKind::SeekFlush {
        generation: 1,
        landed_pts: 0,
        time_base: TimeBase::new(1, 1),
    };
    e.step(&mut shared, r(EncodeReply::Received(Msg::Barrier(b))));
    // An encoder that cannot be flushed at a seek is no failure.
    assert!(matches!(
        e.step(&mut shared, r(EncodeReply::Error("no"))),
        EncodeCommand::ReceivePacket
    ));
    assert!(matches!(
        e.step(&mut shared, r(EncodeReply::NoMore)),
        EncodeCommand::SendBarrier(_)
    ));
    e.step(&mut shared, r(EncodeReply::Sent(Sent::Delivered)));
    e.step(&mut shared, r(EncodeReply::Received(Msg::Eof)));
    match e.step(&mut shared, r(EncodeReply::Error("no"))) {
        EncodeCommand::Failed(f) => assert_eq!(f.stage, FailureStage::Encode),
        _ => panic!("at the end it is one"),
    }
}

#[test]
fn bytes_left_in_the_queues_are_reported_as_none_at_the_end() {
    let mut shared: Shared<String> = Shared::new(1_000);
    shared.budget.admit_bytes(64);
    let p = shared.counters.progress(&shared.budget, None, false, 0);
    assert_eq!(p.queue_bytes, 64);
    shared.budget.release(64);
    let p = shared.counters.progress(&shared.budget, None, true, 0);
    assert_eq!(p.queue_bytes, 0);
}

#[test]
fn independent_track_sinks_keep_sibling_track_moving_under_backpressure() {
    // Two tracks with sinks of their own share one state. The first sink never
    // answers; the second track goes on.
    let mut shared: Shared<&str> = Shared::new(0);
    let mut first = DecodeStage::new(0, Downstream::Independent { track: 0 }, None);
    let mut second = DecodeStage::new(1, Downstream::Independent { track: 1 }, None);
    let r = |x: DecodeReply<i64, &'static str>| x;
    for stage in [&mut first, &mut second] {
        stage.step(&mut shared, r(DecodeReply::Start));
        stage.step(&mut shared, r(DecodeReply::Received(Msg::Data { bytes: 1 })));
        stage.step(&mut shared, r(DecodeReply::Accepted { params: None }));
        assert!(matches!(
            stage.step(&mut shared, r(DecodeReply::Frame(7))),
            DecodeCommand::WriteFrame(7)
        ));
    }
    assert!(matches!(
        second.step(&mut shared, r(DecodeReply::Sent(Sent::Delivered))),
        DecodeCommand::ReceiveFrame
    ));
    assert!(
        shared.counters.frames_written >= 1,
        "successful direct TrackSink delivery must count as frames_written"
    );
    // Stopping wakes the first sink, which only says that it was cancelled.
    shared.abort.request_abort();
    let cancelled = Fault {
        cause: Cause::Raised("test TrackSink cancelled"),
        cancelled: true,
    };
    assert!(matches!(
        first.step(&mut shared, r(DecodeReply::Sent(Sent::Failed(cancelled)))),
        DecodeCommand::SendEof
    ));
    assert!(matches!(
        first.step(&mut shared, r(DecodeReply::Done)),
        DecodeCommand::Finished
    ));
    assert!(
        shared.abort.take_failure().is_none(),
        "cancelling a blocked TrackSink should stop cleanly"
    );
}

#[test]
fn decoder_arena_wait_unwinds_cleanly_on_pipeline_abort() {
    // The decoder waits inside `send_packet` until the abort wakes it.
    let mut shared: Shared<&str> = Shared::new(0);
    let mut stage = DecodeStage::new(0, Downstream::Channel, None);
    let r = |x: DecodeReply<i64, &'static str>| x;
    stage.step(&mut shared, r(DecodeReply::Start));
    assert!(matches!(
        stage.step(&mut shared, r(DecodeReply::Received(Msg::Data { bytes: 1 }))),
        DecodeCommand::SendPacket
    ));
    shared.abort.request_abort();
    let woken = Fault {
        cause: Cause::Raised("wait cancelled"),
        cancelled: true,
    };
    assert!(matches!(
        stage.step(&mut shared, r(DecodeReply::Fault(woken))),
        DecodeCommand::SendEof
    ));
    assert!(matches!(
        stage.step(&mut shared, r(DecodeReply::Done)),
        DecodeCommand::Finished
    ));
    assert!(
        shared.abort.first.is_none(),
        "external abort should unwind cleanly"
    );
    assert_eq!(shared.counters.packets_skipped, 0);
}

#[test]
fn an_output_is_prepared_step_by_step() {
    let mut dag = Dag::new();
    let src = dag
        .push(DagNode::Demuxer {
            source: "in".to_string(),
        })
        .unwrap();
    let dec = dag.push(DagNode::Decode { upstream: src }).unwrap();
    let enc = dag
        .push(DagNode::Encode {
            upstream: dec,
            codec: "opus".to_string(),
            params: "{}".to_string(),
        })
        .unwrap();
    let mux = dag
        .push(DagNode::Mux {
            target: "o.ogg".to_string(),
            tracks: vec![
                MuxTrack {
                    kind: MediaType::Audio,
                    copy: true,
                    upstream: src,
                },
                MuxTrack {
                    kind: MediaType::Audio,
                    copy: false,
                    upstream: enc,
                },
            ],
        })
        .unwrap();
    let mut prep = OutputPreparation::new(dag, "o.ogg".to_string(), mux, false, false);
    assert!(matches!(prep.next(), PrepCommand::Open { uri } if uri == "in"));
    prep.opened(SourceShape::Demuxer);
    assert!(matches!(prep.next(), PrepCommand::Describe));
    let sources = vec![SourceStreams {
        uri: "in".to_string(),
        streams: vec![stream()],
    }];
    assert!(prep.describe(&sources, None, &vec![]).is_ok());
    // The copied track needs nothing; the second wants its codecs in order.
    assert!(matches!(
        prep.next(),
        PrepCommand::Build { track: 1, step: BuildStep::Decoder { .. } }
    ));
    prep.decoder_ready(
        CodecCapabilities {
            implementation: "sw".to_string(),
            hardware_accelerated: false,
            priority: 0,
            max_width: None,
            max_height: None,
            max_bitrate: None,
            max_sample_rate: None,
            max_channels: None,
        },
        None,
    );
    match prep.next() {
        PrepCommand::Build {
            track: 1,
            step: BuildStep::Encoder { params },
        } => assert_eq!(params.codec_id, "opus"),
        _ => panic!("the encoder follows the decoder"),
    }
    prep.encoder_ready(CodecParameters::new("opus".to_string(), MediaType::Audio));
    assert!(matches!(prep.next(), PrepCommand::LayOut));
    assert!(matches!(
        prep.lay_out(),
        PrepCommand::Sink(SinkPlan::File)
    ));
    assert_eq!(prep.streams.len(), 2);
    assert_eq!(prep.streams[0].params.codec_id, "pcm");
    assert_eq!(prep.streams[1].params.codec_id, "opus");
    assert_eq!(prep.streams[1].index, 1);
}

#[test]
fn a_preparation_fails_where_its_graph_does() {
    let mut dag = Dag::new();
    let src = dag
        .push(DagNode::Demuxer {
            source: "in".to_string(),
        })
        .unwrap();
    let mut prep = OutputPreparation::new(dag, "@display".to_string(), src, false, false);
    prep.next();
    prep.opened(SourceShape::Demuxer);
    prep.next();
    let e = prep.describe(&vec![], None, &vec![]).err().unwrap();
    assert_eq!(
        e.message(),
        "job: output @display: expected Mux root, got Demuxer { source: \"in\" }"
    );
}

/// A filter that lets every frame through twice, shows an extra one for each, and
/// holds one frame until the end.
fn doubled(f: i64) -> FilterEmissions<i64> {
    FilterEmissions {
        primary: vec![f, f + 1],
        extras: vec![Extra {
            port: 1,
            kind: MediaType::Video,
            frame: -f,
        }],
    }
}

fn left_over() -> FilterEmissions<i64> {
    FilterEmissions {
        primary: vec![99],
        extras: Vec::new(),
    }
}

#[test]
fn a_filtered_track_counts_alike_on_one_thread_and_on_many() {
    // On one thread: three packets of one frame each, the second one refused.
    let mut stats = ExecutorStats::default();
    let mut shown = 0;
    let mut pump: TrackPump<i64> = TrackPump::new(PumpTrack {
        index: 0,
        kind: MediaType::Audio,
        copy: false,
        has_decoder: true,
        stages: vec![FrameStage::Filter],
        has_encoder: false,
    });
    for packet in [Some(10), None, Some(30)] {
        stats.packets_read += 1;
        pump.feed_packet();
        let mut pending = packet;
        let mut reply: Reply<i64, &str> = Reply::Start;
        loop {
            reply = match pump.step(&mut stats, reply) {
                Command::SendPacket if packet.is_none() => Reply::Error("bad"),
                Command::ReceiveFrame => match pending.take() {
                    Some(f) => Reply::Frame(f),
                    None => Reply::NoMore,
                },
                Command::Materialise(f) => Reply::Frame(f),
                Command::RunStage { frame, .. } => Reply::Emitted(doubled(frame)),
                Command::WriteFrame { .. } => {
                    shown += 1;
                    Reply::Done
                }
                Command::Finished => break,
                _ => Reply::Done,
            };
        }
    }
    pump.drain();
    let mut reply: Reply<i64, &str> = Reply::Start;
    loop {
        reply = match pump.step(&mut stats, reply) {
            Command::ReceiveFrame => Reply::NoMore,
            Command::FlushStage { .. } => Reply::Emitted(left_over()),
            Command::WriteFrame { .. } => {
                shown += 1;
                Reply::Done
            }
            Command::Finished => break,
            _ => Reply::Done,
        };
    }

    // On many: the decoder, the filter, and the loop that feeds the sink.
    let mut shared: Shared<&str> = Shared::new(0);
    shared.counters.packets_read = 3;
    let mut decoder = DecodeStage::new(0, Downstream::Channel, None);
    let mut inbox = VecDeque::from([Some(10), None, Some(30)]);
    let mut packet = None;
    let mut pending = None;
    let mut decoded = VecDeque::new();
    let mut reply: DecodeReply<i64, &str> = DecodeReply::Start;
    loop {
        reply = match decoder.step(&mut shared, reply) {
            DecodeCommand::Receive => DecodeReply::Received(match inbox.pop_front() {
                Some(p) => {
                    packet = p;
                    Msg::Data { bytes: 1 }
                }
                None => Msg::Eof,
            }),
            DecodeCommand::SendPacket => match packet.take() {
                Some(f) => {
                    pending = Some(f);
                    DecodeReply::Accepted { params: None }
                }
                None => DecodeReply::Fault(Fault {
                    cause: Cause::Raised("bad"),
                    cancelled: false,
                }),
            },
            DecodeCommand::ReceiveFrame => match pending.take() {
                Some(f) => DecodeReply::Frame(f),
                None => DecodeReply::NeedMore,
            },
            DecodeCommand::WriteFrame(f) => {
                decoded.push_back(f);
                DecodeReply::Sent(Sent::Delivered)
            }
            DecodeCommand::Finished => break,
            _ => DecodeReply::Done,
        };
    }
    let mut worker: FrameWorker<i64> = FrameWorker::new(
        0,
        FrameStage::Filter,
        Downstream::Aggregate { track: 0 },
        Some(1),
    );
    let mut queue = VecDeque::new();
    let mut reply: FrameReply<i64, &str> = FrameReply::Start;
    let mut held = None;
    loop {
        reply = match worker.step(&mut shared, reply) {
            FrameCommand::Receive => FrameReply::Received(match decoded.pop_front() {
                Some(f) => {
                    held = Some(f);
                    Msg::Data { bytes: 0 }
                }
                None => Msg::Eof,
            }),
            FrameCommand::Materialise => FrameReply::Frame(held.take().unwrap()),
            FrameCommand::RunStage(f) => FrameReply::Emitted(doubled(f)),
            FrameCommand::FlushStage => FrameReply::Emitted(left_over()),
            FrameCommand::WriteFrame(f) => {
                queue.push_back((0, f));
                FrameReply::Sent(Sent::Delivered)
            }
            FrameCommand::WriteExtra { stream, frame, .. } => {
                queue.push_back((stream, frame));
                FrameReply::Sent(Sent::Delivered)
            }
            FrameCommand::Finished => break,
            _ => FrameReply::Done,
        };
    }
    let mut mux = MuxLoop::new(1, true);
    let mut staged_shown = 0;
    let mut reports = Vec::new();
    let mut reply: MuxReply<&str> = MuxReply::Start;
    loop {
        reply = match mux.step(&mut shared, reply, reports.len() as u64) {
            MuxCommand::Poll { .. } => match queue.pop_front() {
                Some((stream, _)) => MuxReply::Frame { stream, pts: None },
                None => MuxReply::Eof,
            },
            MuxCommand::WriteFrame => {
                staged_shown += 1;
                MuxReply::Done
            }
            MuxCommand::Report(p) => {
                reports.push(p);
                MuxReply::Done
            }
            MuxCommand::Stop => break,
            _ => MuxReply::Done,
        };
    }
    assert_eq!(shared.counters.snapshot(), stats);
    assert_eq!(
        (stats.frames_decoded, stats.packets_skipped, stats.frames_written),
        (2, 1, 7)
    );
    assert_eq!((shown, staged_shown), (7, 7));

    // The reports: none is the last, none goes back, and the last one agrees.
    let mut run = OutputRun::new(vec![plan(false, false, vec![], false)], false, true);
    run.step(&mut shared, OutputReply::Start, 0);
    run.step(&mut shared, OutputReply::Done, 0);
    run.step(&mut shared, OutputReply::TrackSinks(None), 0);
    run.step(&mut shared, OutputReply::Done, 0);
    run.step(&mut shared, OutputReply::Done, 0);
    match run.step(&mut shared, OutputReply::Done, 9) {
        OutputCommand::ReportEnd(p) => reports.push(p),
        _ => panic!("the end is reported"),
    }
    match run.step(&mut shared, OutputReply::Done, 9) {
        OutputCommand::Finished(s) => assert_eq!(s, stats),
        _ => panic!("the output is finished"),
    }
    assert_eq!(reports.len(), 8);
    for w in reports.windows(2) {
        assert!(!w[0].eof);
        assert!(w[0].frames <= w[1].frames && w[0].elapsed_micros <= w[1].elapsed_micros);
        assert_eq!(w[0].queue_bytes, 0);
    }
    let last = reports[7];
    assert!(last.eof && last.pts.is_none());
    assert_eq!((last.frames, last.packets_skipped), (7, 1));
}
