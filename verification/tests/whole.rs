use std::collections::VecDeque;

use oxideav_pipeline::dag::{Dag, DagNode, ResolvedSelector};
use oxideav_pipeline::decode_stage::{DecodeCommand, DecodeReply, DecodeStage};
use oxideav_pipeline::encode_stage::{EncodeCommand, EncodeReply, EncodeStage};
use oxideav_pipeline::error::{ErrorKind, JobError};
use oxideav_pipeline::frame_stage::{FrameCommand, FrameReply, FrameWorker};
use oxideav_pipeline::media::MediaType;
use oxideav_pipeline::mux::{MuxCommand, MuxLoop, MuxReply};
use oxideav_pipeline::output::{OutputCommand, OutputReply, OutputRun};
use oxideav_pipeline::pump::{Command, FilterEmissions, PumpTrack, Reply, TrackPump};
use oxideav_pipeline::serial::{SerialCommand, SerialReply, SerialRun, SerialSource, SerialTrack};
use oxideav_pipeline::source_stage::{SourceCommand, SourceReply, SourceStage};
use oxideav_pipeline::staged::{Downstream, Progress, Sent, Shared};
use oxideav_pipeline::stats::ExecutorStats;
use oxideav_pipeline::topology::PlanTrack;
use oxideav_pipeline::track::FrameStage;
use oxideav_pipeline::uri::output_extension;
use oxideav_pipeline::workers::{
    CopyCommand, CopyReply, CopyStage, FanoutCommand, FanoutReply, FanoutStage, Msg,
};

/// The packets of the first source: stream and size.
const PACKETS: [(u32, u64); 5] = [(0, 10), (1, 20), (0, 30), (2, 40), (1, 50)];

/// How many frames the second source hands out.
const FRAMES: usize = 3;

fn pump_track(index: u32, copy: bool, has_decoder: bool) -> PumpTrack {
    PumpTrack {
        index,
        kind: MediaType::Video,
        copy,
        has_decoder,
        stages: Vec::new(),
        has_encoder: false,
    }
}

/// Three tracks over two sources on one thread: a copied stream, a decoded one, and
/// frames.
fn on_one_thread() -> (ExecutorStats, u64) {
    let mut run = SerialRun::new(
        vec![
            SerialSource { frames: false, eof: false },
            SerialSource { frames: true, eof: false },
        ],
        vec![
            SerialTrack { source: 0, stream: 0 },
            SerialTrack { source: 0, stream: 1 },
            SerialTrack { source: 1, stream: 0 },
        ],
        false,
    );
    let mut pumps: Vec<TrackPump<u64>> = vec![
        TrackPump::new(pump_track(0, true, false)),
        TrackPump::new(pump_track(1, false, true)),
        TrackPump::new(pump_track(2, false, false)),
    ];
    let mut packets = PACKETS.iter();
    let mut frames = 0..FRAMES;
    let mut shown = 0;
    let mut reply: SerialReply<&str> = SerialReply::Start;
    loop {
        reply = match run.step(reply) {
            SerialCommand::StartSink | SerialCommand::FinishSink => SerialReply::Done,
            SerialCommand::ReadPacket { source } => {
                assert_eq!(source, 0);
                match packets.next() {
                    Some((stream, _)) => SerialReply::Packet { stream: *stream },
                    None => SerialReply::Eof,
                }
            }
            SerialCommand::ReadFrame { source } => {
                assert_eq!(source, 1);
                match frames.next() {
                    Some(_) => SerialReply::Frame,
                    None => SerialReply::Eof,
                }
            }
            SerialCommand::FeedPacket { track } => {
                pumps[track].feed_packet();
                shown += pumped(&mut pumps[track], &mut run.stats, Some(7));
                SerialReply::Done
            }
            SerialCommand::FeedFrame { track } => {
                pumps[track].feed_frame(7);
                shown += pumped(&mut pumps[track], &mut run.stats, None);
                SerialReply::Done
            }
            SerialCommand::Drain { track } => {
                pumps[track].drain();
                shown += pumped(&mut pumps[track], &mut run.stats, None);
                SerialReply::Done
            }
            SerialCommand::Finished(stats) => return (stats, shown),
            SerialCommand::Failed { .. } => panic!("nothing fails"),
        };
    }
}

fn pumped(pump: &mut TrackPump<u64>, stats: &mut ExecutorStats, mut pending: Option<u64>) -> u64 {
    let mut shown = 0;
    let mut reply: Reply<u64, &str> = Reply::Start;
    loop {
        reply = match pump.step(stats, reply) {
            Command::ReceiveFrame => match pending.take() {
                Some(f) => Reply::Frame(f),
                None => Reply::NoMore,
            },
            Command::WriteFrame { .. } => {
                shown += 1;
                Reply::Done
            }
            Command::Finished => return shown,
            _ => Reply::Done,
        };
    }
}

/// What reaches the queue of a track at the sink.
enum Item {
    Frame,
    Packet,
    Eof,
}

/// The same tracks on many threads, which take turns in a fixed order.
struct Crew {
    shared: Shared<&'static str>,
    packets: VecDeque<(u32, u64)>,
    frames: usize,
    reader: SourceStage,
    reading: Option<SourceCommand<&'static str>>,
    holding: u64,
    waits: usize,
    renderer: SourceStage,
    rendering: Option<SourceCommand<&'static str>>,
    inboxes: Vec<VecDeque<Msg>>,
    copier: CopyStage,
    copying: Option<CopyCommand>,
    decoder: DecodeStage,
    decoding: Option<DecodeCommand<u64, &'static str>>,
    pending: Option<u64>,
    forwarder: FanoutStage,
    forwarding: Option<FanoutCommand>,
    queues: Vec<VecDeque<Item>>,
    mux: MuxLoop,
    muxing: Option<MuxCommand>,
    shown: u64,
    reports: Vec<Progress>,
}

impl Crew {
    fn new(max_queue_bytes: u64) -> Self {
        let to = |track| Downstream::Aggregate { track };
        Crew {
            shared: Shared::new(max_queue_bytes),
            packets: PACKETS.iter().copied().collect(),
            frames: FRAMES,
            reader: SourceStage::new(false, vec![0, 1], vec![], false, 0, false),
            reading: None,
            holding: 0,
            waits: 0,
            renderer: SourceStage::new(true, vec![0], vec![], false, 0, false),
            rendering: None,
            inboxes: vec![VecDeque::new(), VecDeque::new(), VecDeque::new()],
            copier: CopyStage::new(to(0)),
            copying: None,
            decoder: DecodeStage::new(1, to(1), None),
            decoding: None,
            pending: None,
            forwarder: FanoutStage::new(to(2)),
            forwarding: None,
            queues: vec![VecDeque::new(), VecDeque::new(), VecDeque::new()],
            mux: MuxLoop::new(3, true),
            muxing: None,
            shown: 0,
            reports: Vec::new(),
        }
    }

    fn read(&mut self) {
        let reply = match self.reading.take() {
            None => SourceReply::Start,
            Some(SourceCommand::ReadPacket) => match self.packets.pop_front() {
                Some((stream, bytes)) => {
                    self.holding = bytes;
                    SourceReply::Packet { stream, bytes }
                }
                None => SourceReply::Eof,
            },
            Some(SourceCommand::SendData { route }) => {
                self.inboxes[route].push_back(Msg::Data { bytes: self.holding });
                SourceReply::Sent
            }
            Some(SourceCommand::SendEof { route }) => {
                self.inboxes[route].push_back(Msg::Eof);
                SourceReply::Done
            }
            Some(SourceCommand::Park) => {
                self.waits += 1;
                SourceReply::Done
            }
            Some(SourceCommand::Finished) => {
                self.reading = Some(SourceCommand::Finished);
                return;
            }
            Some(_) => panic!("nothing else is asked of the reader"),
        };
        self.reading = Some(self.reader.step(&mut self.shared, reply));
    }

    fn render(&mut self) {
        let reply = match self.rendering.take() {
            None => SourceReply::Start,
            Some(SourceCommand::ReadFrame) if self.frames > 0 => {
                self.frames -= 1;
                SourceReply::Frame
            }
            Some(SourceCommand::ReadFrame) => SourceReply::Eof,
            Some(SourceCommand::SendData { .. }) => {
                self.inboxes[2].push_back(Msg::Data { bytes: 0 });
                SourceReply::Sent
            }
            Some(SourceCommand::SendEof { .. }) => {
                self.inboxes[2].push_back(Msg::Eof);
                SourceReply::Done
            }
            Some(SourceCommand::Finished) => {
                self.rendering = Some(SourceCommand::Finished);
                return;
            }
            Some(_) => panic!("nothing else is asked of the renderer"),
        };
        self.rendering = Some(self.renderer.step(&mut self.shared, reply));
    }

    fn copy(&mut self) {
        let reply = match self.copying {
            None => CopyReply::Start,
            Some(CopyCommand::Receive) => match self.inboxes[0].pop_front() {
                Some(msg) => CopyReply::Received(msg),
                None => return,
            },
            Some(CopyCommand::WritePacket) => {
                self.queues[0].push_back(Item::Packet);
                CopyReply::Sent(Sent::Delivered)
            }
            Some(CopyCommand::SendEof) => {
                self.queues[0].push_back(Item::Eof);
                CopyReply::Sent(Sent::Delivered)
            }
            Some(CopyCommand::Finished) => return,
            Some(_) => panic!("nothing else is asked of the copier"),
        };
        self.copying = Some(self.copier.step(&mut self.shared, reply));
    }

    fn decode(&mut self) {
        let reply = match self.decoding.take() {
            None => DecodeReply::Start,
            Some(DecodeCommand::Receive) => match self.inboxes[1].pop_front() {
                Some(msg) => DecodeReply::Received(msg),
                None => {
                    self.decoding = Some(DecodeCommand::Receive);
                    return;
                }
            },
            Some(DecodeCommand::SendPacket) => {
                self.pending = Some(7);
                DecodeReply::Accepted { params: None }
            }
            Some(DecodeCommand::ReceiveFrame) => match self.pending.take() {
                Some(f) => DecodeReply::Frame(f),
                None => DecodeReply::NeedMore,
            },
            Some(DecodeCommand::WriteFrame(_)) => {
                self.queues[1].push_back(Item::Frame);
                DecodeReply::Sent(Sent::Delivered)
            }
            Some(DecodeCommand::SendEof) => {
                self.queues[1].push_back(Item::Eof);
                DecodeReply::Done
            }
            Some(DecodeCommand::Finished) => {
                self.decoding = Some(DecodeCommand::Finished);
                return;
            }
            Some(_) => DecodeReply::Done,
        };
        self.decoding = Some(self.decoder.step(&mut self.shared, reply));
    }

    fn forward(&mut self) {
        let reply = match &self.forwarding {
            None => FanoutReply::Start,
            Some(FanoutCommand::Receive) => match self.inboxes[2].pop_front() {
                Some(msg) => FanoutReply::Received(msg),
                None => return,
            },
            Some(FanoutCommand::WriteFrame) => {
                self.queues[2].push_back(Item::Frame);
                FanoutReply::Sent(Sent::Delivered)
            }
            Some(FanoutCommand::SendEof) => {
                self.queues[2].push_back(Item::Eof);
                FanoutReply::Sent(Sent::Delivered)
            }
            Some(FanoutCommand::Finished) => return,
            Some(_) => panic!("nothing else is asked of the forwarder"),
        };
        self.forwarding = Some(self.forwarder.step(&mut self.shared, reply));
    }

    /// Whether the loop has stopped.
    fn feed_sink(&mut self) -> bool {
        let reply = match self.muxing.take() {
            None => MuxReply::Start,
            Some(MuxCommand::Poll { track }) => match self.queues[track].pop_front() {
                Some(Item::Frame) => MuxReply::Frame { stream: track as u32, pts: None },
                Some(Item::Packet) => MuxReply::Packet { stream: track as u32, pts: None },
                Some(Item::Eof) => MuxReply::Eof,
                None => MuxReply::Empty,
            },
            Some(MuxCommand::WriteFrame) => {
                self.shown += 1;
                MuxReply::Done
            }
            Some(MuxCommand::Report(p)) => {
                self.reports.push(p);
                MuxReply::Done
            }
            Some(MuxCommand::Stop) => return true,
            Some(_) => MuxReply::Done,
        };
        let time = self.reports.len() as u64;
        self.muxing = Some(self.mux.step(&mut self.shared, reply, time));
        false
    }

    /// Everybody takes turns until the loop has stopped; the reader more often than the
    /// others.
    fn run(&mut self) {
        loop {
            for _ in 0..3 {
                self.read();
            }
            self.render();
            self.copy();
            self.decode();
            self.forward();
            if self.feed_sink() {
                return;
            }
        }
    }
}

fn planned(source: usize, stream: u32, frames: bool, copy: bool) -> PlanTrack {
    PlanTrack {
        source,
        stream,
        frames,
        copy,
        has_decoder: !frames && !copy,
        stages: Vec::new(),
        has_encoder: false,
        extras_base: 3,
        extra_counts: Vec::new(),
    }
}

#[test]
fn several_tracks_over_several_sources_count_alike_on_one_thread_and_on_many() {
    let (stats, shown) = on_one_thread();
    assert_eq!(
        stats,
        ExecutorStats {
            packets_read: 5,
            packets_copied: 2,
            packets_encoded: 0,
            frames_decoded: 5,
            frames_written: 5,
            packets_skipped: 0,
        }
    );
    assert_eq!(shown, 5);
    for max_queue_bytes in [0, 15, 1000] {
        let mut crew = Crew::new(max_queue_bytes);
        let tracks = vec![
            planned(0, 0, false, true),
            planned(0, 1, false, false),
            planned(1, 0, true, false),
        ];
        let mut run = OutputRun::new(tracks, false, true);
        run.step(&mut crew.shared, OutputReply::Start, 0);
        run.step(&mut crew.shared, OutputReply::Done, 0);
        match run.step(&mut crew.shared, OutputReply::TrackSinks(None), 0) {
            OutputCommand::Run { independent } => assert!(!independent),
            _ => panic!("the workers are started"),
        }
        crew.run();
        // The sink is fed: whoever has not ended has only to be told that its end was
        // heard.
        assert!(matches!(
            run.step(&mut crew.shared, OutputReply::Done, 9),
            OutputCommand::Join
        ));
        crew.read();
        crew.render();
        crew.copy();
        crew.decode();
        crew.forward();
        assert!(matches!(crew.reading, Some(SourceCommand::Finished)));
        assert!(matches!(crew.rendering, Some(SourceCommand::Finished)));
        assert!(matches!(crew.copying, Some(CopyCommand::Finished)));
        assert!(matches!(crew.decoding, Some(DecodeCommand::Finished)));
        assert!(matches!(crew.forwarding, Some(FanoutCommand::Finished)));
        assert!(matches!(
            run.step(&mut crew.shared, OutputReply::Done, 9),
            OutputCommand::FinishSink
        ));
        match run.step(&mut crew.shared, OutputReply::Done, 9) {
            OutputCommand::ReportEnd(p) => {
                assert!(p.eof);
                assert_eq!(p.queue_bytes, 0);
                assert_eq!(p.frames, 5);
            }
            _ => panic!("the end is reported"),
        }
        match run.step(&mut crew.shared, OutputReply::Done, 9) {
            OutputCommand::Finished(s) => assert_eq!(s, stats),
            _ => panic!("the output is finished"),
        }
        assert_eq!(crew.shown, shown);
        assert_eq!(crew.shared.budget.in_flight, 0);
        // Only a low ceiling makes the reader wait.
        assert_eq!(crew.waits > 0, max_queue_bytes == 15);
        if max_queue_bytes == 0 {
            assert!(crew.reports.iter().all(|p| p.queue_bytes == 0));
        }
    }
}

#[test]
fn a_stop_ends_every_worker() {
    let mut shared: Shared<&str> = Shared::new(0);
    let mut source = SourceStage::new(false, vec![0, 0], vec![], false, 0, false);
    assert!(matches!(
        source.step(&mut shared, SourceReply::Start),
        SourceCommand::ReadPacket
    ));
    let mut copier = CopyStage::new(Downstream::Channel);
    copier.step(&mut shared, CopyReply::Start);
    let mut forwarder = FanoutStage::new(Downstream::Channel);
    forwarder.step(&mut shared, FanoutReply::Start);
    let mut worker: FrameWorker<u64> =
        FrameWorker::new(0, FrameStage::Filter, Downstream::Channel, None);
    worker.step(&mut shared, FrameReply::Start);
    let mut encoder = EncodeStage::new(0, Downstream::Channel);
    let start: EncodeReply<u64, &str> = EncodeReply::Start;
    encoder.step(&mut shared, start);
    let mut mux = MuxLoop::new(2, false);
    mux.step(&mut shared, MuxReply::Start, 0);
    shared.abort.request_abort();

    // What was being read still goes to its routes; then both hear the end.
    let packet = SourceReply::Packet { stream: 0, bytes: 9 };
    assert!(matches!(
        source.step(&mut shared, packet),
        SourceCommand::SendData { route: 0 }
    ));
    assert!(matches!(
        source.step(&mut shared, SourceReply::Sent),
        SourceCommand::SendData { route: 1 }
    ));
    assert!(matches!(
        source.step(&mut shared, SourceReply::Sent),
        SourceCommand::SendEof { route: 0 }
    ));
    assert!(matches!(
        source.step(&mut shared, SourceReply::Done),
        SourceCommand::SendEof { route: 1 }
    ));
    assert!(matches!(
        source.step(&mut shared, SourceReply::Done),
        SourceCommand::Finished
    ));

    // What was received is still handed on.
    let data = Msg::Data { bytes: 9 };
    copier.step(&mut shared, CopyReply::Received(data));
    assert!(matches!(
        copier.step(&mut shared, CopyReply::Sent(Sent::Delivered)),
        CopyCommand::SendEof
    ));
    forwarder.step(&mut shared, FanoutReply::Received(data));
    assert!(matches!(
        forwarder.step(&mut shared, FanoutReply::Sent(Sent::Delivered)),
        FanoutCommand::SendEof
    ));
    worker.step(&mut shared, FrameReply::Received(data));
    worker.step(&mut shared, FrameReply::Frame(7));
    let made = FilterEmissions { primary: vec![8, 9], extras: Vec::new() };
    assert!(matches!(
        worker.step(&mut shared, FrameReply::Emitted(made)),
        FrameCommand::WriteFrame(8)
    ));
    assert!(matches!(
        worker.step(&mut shared, FrameReply::Sent(Sent::Delivered)),
        FrameCommand::WriteFrame(9)
    ));
    assert!(matches!(
        worker.step(&mut shared, FrameReply::Sent(Sent::Delivered)),
        FrameCommand::SendEof
    ));
    let received: EncodeReply<u64, &str> = EncodeReply::Received(data);
    encoder.step(&mut shared, received);
    encoder.step(&mut shared, EncodeReply::Frame(7));
    encoder.step(&mut shared, EncodeReply::<u64, &str>::Done);
    let nothing: EncodeReply<u64, &str> = EncodeReply::NoMore;
    assert!(matches!(
        encoder.step(&mut shared, nothing),
        EncodeCommand::SendEof
    ));

    // The loop looks into the other queue, and then stops.
    assert!(matches!(
        mux.step(&mut shared, MuxReply::Empty, 0),
        MuxCommand::Poll { track: 1 }
    ));
    assert!(matches!(
        mux.step(&mut shared, MuxReply::Empty, 0),
        MuxCommand::Park
    ));
    assert!(matches!(
        mux.step(&mut shared, MuxReply::Done, 0),
        MuxCommand::Stop
    ));
}

fn not_a_mux(node: DagNode) -> JobError {
    let mut dag = Dag { nodes: Vec::new(), roots: Vec::new() };
    let id = dag
        .push(DagNode::Demuxer { source: "in.mkv".to_string() })
        .expect("a leaf reads nothing");
    let id = match node {
        DagNode::Demuxer { .. } => id,
        other => dag.push(other).expect("it reads what is there"),
    };
    match dag.mux_tracks(&"out.mp4".to_string(), id) {
        Err(e) => e,
        Ok(_) => panic!("only a mux has tracks"),
    }
}

#[test]
fn an_output_that_is_no_mux_is_shown_with_everything_it_holds() {
    let cases = [
        (
            DagNode::Demuxer { source: "in.mkv".to_string() },
            r#"Demuxer { source: "in.mkv" }"#,
        ),
        (
            DagNode::PacketSource { source: "a\"b".to_string() },
            r#"PacketSource { source: "a\"b" }"#,
        ),
        (
            DagNode::Render3D {
                source: "scene.gltf".to_string(),
                backend: "soft".to_string(),
                opts: "{\"width\": 4, \"height\": 4}".to_string(),
            },
            r#"Render3D { source: "scene.gltf", backend: "soft", opts: Object {"height": Number(4), "width": Number(4)} }"#,
        ),
        (
            DagNode::Select {
                upstream: 0,
                selector: ResolvedSelector { kind: Some(MediaType::Audio), index: Some(1) },
            },
            "Select { upstream: 0, selector: ResolvedSelector { kind: Some(Audio), index: Some(1) } }",
        ),
        (DagNode::Decode { upstream: 0 }, "Decode { upstream: 0 }"),
        (
            DagNode::Filter {
                upstream: 0,
                name: "volume".to_string(),
                params: "null".to_string(),
            },
            r#"Filter { upstream: 0, name: "volume", params: Null }"#,
        ),
        (
            DagNode::PixConvert { upstream: 0, target: oxideav_core::PixelFormat::Rgb24 },
            "PixConvert { upstream: 0, target: Rgb24 }",
        ),
        (
            DagNode::Encode {
                upstream: 0,
                codec: "flac".to_string(),
                params: "not json".to_string(),
            },
            r#"Encode { upstream: 0, codec: "flac", params: "not json" }"#,
        ),
    ];
    for (node, shown) in cases {
        let e = not_a_mux(node);
        assert_eq!(e.kind(), ErrorKind::InvalidData);
        assert_eq!(
            e.message(),
            format!("job: output out.mp4: expected Mux root, got {}", shown)
        );
    }
}

#[test]
fn the_extension_of_a_file_output_is_what_follows_its_last_dot() {
    let ext = |name: &str| output_extension(&name.to_string());
    assert_eq!(ext("dir/out.tar.gz"), Some("gz".to_string()));
    assert_eq!(ext("out.mp4"), Some("mp4".to_string()));
    assert_eq!(ext("dir.d/out"), None);
    assert_eq!(ext(".hidden"), None);
    assert_eq!(ext("out"), None);
    assert_eq!(ext(".."), None);
    assert_eq!(ext("dir.d/.."), None);
    assert_eq!(ext("/out.d/.hidden.mkv"), Some("mkv".to_string()));
    assert_eq!(ext("out."), Some(String::new()));
    assert_eq!(ext("..."), Some(String::new()));
    assert_eq!(ext(""), None);
}
