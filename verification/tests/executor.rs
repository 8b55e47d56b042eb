use oxideav_core::PixelFormat;
use oxideav_pipeline::convert::{
    flush_frame_stage_emit, run_frame_stage_emit, MediaFrame, Plane, StageOutcome, VideoFrame,
};
use oxideav_pipeline::dag::{Dag, DagNode, MuxTrack, ResolvedSelector, StageSpec};
use oxideav_pipeline::error::{ErrorKind, JobError};
use oxideav_pipeline::failure::FailureStage;
use oxideav_pipeline::instantiate::{BuildStep, EncodeOverrides, Instantiation};
use oxideav_pipeline::media::{
    CodecParameters, MediaType, PortParams, PortSpec, Rational, SampleFormat, StreamInfo, TimeBase,
};
use oxideav_pipeline::pixel::{apply_pixel_format_auto_insert, codec_accepted_pixel_formats, CodecFormats};
use oxideav_pipeline::ports::{extra_port_stream, port_params_equal, port_spec_from_params};
use oxideav_pipeline::prepare::{prepare_tracks, used_sources};
use oxideav_pipeline::pump::{
    Command, Extra, FilterEmissions, PumpTrack, Reply, TrackPump,
};
use oxideav_pipeline::selection::CodecCapabilities;
use oxideav_pipeline::sources::{
    open_source, synth_stream_info, OpenedKind, ResolveStep, SourceAccess, SourceResolution,
    SourceShape,
};
use oxideav_pipeline::stats::ExecutorStats;
use oxideav_pipeline::track::{
    build_output_streams, build_track_runtime, expand_all_tracks_pump, resolve_input,
    select_stream, FrameStage, SourceStreams, TrackRuntime,
};
use oxideav_pipeline::uri::{ext_from_uri, file_format, open_sink, SinkPlan};

fn audio(codec: &str) -> CodecParameters {
    CodecParameters::new(codec.to_string(), MediaType::Audio)
}

fn stream(index: u32, kind: MediaType) -> StreamInfo {
    StreamInfo {
        index,
        time_base: TimeBase::new(1, 1000),
        duration: None,
        start_time: Some(0),
        params: CodecParameters::new("c".to_string(), kind),
    }
}

fn track(uri: &str, kind: MediaType) -> TrackRuntime {
    TrackRuntime::new(
        uri.to_string(),
        ResolvedSelector::any(),
        kind,
        false,
        Vec::new(),
    )
}

#[test]
fn ext_from_uri_basic() {
    assert_eq!(ext_from_uri("foo.mp3").as_deref(), Some("mp3"));
    assert_eq!(
        ext_from_uri("https://x/y.mkv?token=1").as_deref(),
        Some("mkv")
    );
    assert_eq!(ext_from_uri("/no/ext"), None);
}

#[test]
fn ext_from_uri_edges() {
    assert_eq!(ext_from_uri("A/B.TAR.Gz").as_deref(), Some("gz"));
    assert_eq!(ext_from_uri("dir.d/file"), None);
    assert_eq!(ext_from_uri("trailing."), Some(String::new()));
    assert_eq!(ext_from_uri(""), None);
    assert_eq!(ext_from_uri("x.wav?a.b"), Some("wav".to_string()));
    assert_eq!(ext_from_uri("ü.ÄZ").as_deref(), Some("Äz"));
}

#[test]
fn output_stream_preserves_unknown_source_start_time() {
    let mut track = track("test://video", MediaType::Video);
    track.input_time_base = TimeBase::new(1, 90_000);
    track.input_start_time = None;

    let mut tracks = vec![track];
    let streams = build_output_streams(&mut tracks);
    assert_eq!(streams[0].start_time, None);
}

#[test]
fn output_stream_rescales_known_source_start_time() {
    let mut track = track("test://audio", MediaType::Audio);
    track.input_time_base = TimeBase::new(1, 90_000);
    track.input_start_time = Some(6_300_000);
    track.input_duration = Some(540_000);
    track.encoder_time_base = Some(TimeBase::new(1, 1_000));

    let mut tracks = vec![track];
    let streams = build_output_streams(&mut tracks);
    assert_eq!(streams[0].time_base, TimeBase::new(1, 1_000));
    assert_eq!(streams[0].start_time, Some(70_000));
    assert_eq!(streams[0].duration, Some(6_000));
}

#[test]
fn extra_streams_follow_the_primaries_and_are_numbered_through() {
    let mut a = track("a", MediaType::Audio);
    a.extra_output_streams.push(stream(1, MediaType::Video));
    a.extra_output_streams.push(stream(2, MediaType::Video));
    let b = track("b", MediaType::Video);
    let mut c = track("c", MediaType::Audio);
    c.extra_output_streams.push(stream(1, MediaType::Subtitle));
    let mut tracks = vec![a, b, c];
    let streams = build_output_streams(&mut tracks);
    let indices: Vec<u32> = streams.iter().map(|s| s.index).collect();
    assert_eq!(indices, vec![0, 1, 2, 3, 4, 5]);
    assert_eq!(streams[3].params.media_type, MediaType::Video);
    assert_eq!(streams[5].params.media_type, MediaType::Subtitle);
    let bases: Vec<u32> = tracks.iter().map(|t| t.extras_base_index).collect();
    assert_eq!(bases, vec![3, 5, 5]);
}

/// Runs a pump over scripted outcomes; returns what it asked for.
fn drive(pump: &mut TrackPump<i64>, stats: &mut ExecutorStats, replies: Vec<Reply<i64, &'static str>>) -> Vec<String> {
    let mut log = Vec::new();
    let mut replies = replies.into_iter();
    let mut reply = Reply::Start;
    loop {
        let text = match pump.step(stats, reply) {
            Command::CopyPacket { stream_index, .. } => format!("copy to {stream_index}"),
            Command::SendPacket => "send packet".to_string(),
            Command::ReceiveFrame => "receive frame".to_string(),
            Command::Materialise(f) => format!("materialise {f}"),
            Command::RunStage { stage, frame } => format!("run {stage} on {frame}"),
            Command::FlushStage { stage } => format!("flush {stage}"),
            Command::WriteFrame { kind, frame } => format!("write {kind:?} {frame}"),
            Command::SendFrame(f) => format!("encode {f}"),
            Command::ReceivePacket => "receive packet".to_string(),
            Command::WritePacket { stream_index, .. } => format!("packet to {stream_index}"),
            Command::FlushDecoder => "flush decoder".to_string(),
            Command::FlushEncoder => "flush encoder".to_string(),
            Command::Finished => {
                log.push("finished".to_string());
                return log;
            }
            Command::Failed(f) => {
                log.push(format!("failed at {} of track {:?}", f.stage.name(), f.track));
                return log;
            }
        };
        log.push(text);
        reply = replies.next().expect("an outcome for every call");
    }
}

fn pump_track(stages: Vec<FrameStage>, has_encoder: bool) -> PumpTrack {
    PumpTrack {
        index: 3,
        kind: MediaType::Video,
        copy: false,
        has_decoder: true,
        stages,
        has_encoder,
    }
}

fn one(frame: i64) -> FilterEmissions<i64> {
    FilterEmissions {
        primary: vec![frame],
        extras: Vec::new(),
    }
}

#[test]
fn direct_player_path_preserves_hardware_lease_without_materializing() {
    let mut pump = TrackPump::new(pump_track(Vec::new(), false));
    let mut stats = ExecutorStats::default();
    pump.feed_frame(42);
    let log = drive(&mut pump, &mut stats, vec![Reply::Done]);
    assert_eq!(log, vec!["write Video 42", "finished"]);
    assert_eq!(stats.frames_written, 1);
}

#[test]
fn legacy_frame_stage_materializes_hardware_lease_once() {
    let stage = FrameStage::PixConvert {
        from: PixelFormat::Yuv420P,
        width: 2,
        height: 2,
        target: PixelFormat::Rgba,
    };
    let mut pump = TrackPump::new(pump_track(vec![stage], false));
    let mut stats = ExecutorStats::default();
    pump.feed_frame(42);
    let log = drive(
        &mut pump,
        &mut stats,
        vec![Reply::Frame(42), Reply::Emitted(one(43)), Reply::Done],
    );
    assert_eq!(
        log,
        vec![
            "materialise 42",
            "run 0 on 42",
            "write Video 43",
            "finished"
        ]
    );
    assert_eq!(log.iter().filter(|l| l.starts_with("materialise")).count(), 1);
    assert_eq!(stats.frames_written, 1);
}

#[test]
fn a_picture_is_really_converted() {
    let stage = FrameStage::PixConvert {
        from: PixelFormat::Yuv420P,
        width: 2,
        height: 2,
        target: PixelFormat::Rgba,
    };
    let plane = |n: usize, stride: usize| Plane {
        stride,
        data: vec![128u8; n],
    };
    let frame: MediaFrame<&str> = MediaFrame::Video(VideoFrame {
        pts: Some(5),
        planes: vec![plane(4, 2), plane(1, 1), plane(1, 1)],
    });
    match run_frame_stage_emit(&stage, frame) {
        StageOutcome::Emitted(out) => {
            assert_eq!(out.primary.len(), 1);
            assert!(out.extras.is_empty());
            match &out.primary[0] {
                MediaFrame::Video(v) => {
                    assert_eq!(v.pts, Some(5));
                    assert_eq!(v.planes.len(), 1);
                    assert_eq!(v.planes[0].stride, 8);
                    assert_eq!(v.planes[0].data.len(), 16);
                    // Neutral chroma: a grey, fully opaque.
                    assert_eq!(v.planes[0].data[0], v.planes[0].data[1]);
                    assert_eq!(v.planes[0].data[3], 255);
                }
                MediaFrame::Other(_) => panic!("a picture stays a picture"),
            }
        }
        _ => panic!("a whole picture converts"),
    }

    // Sound passes, a short plane is an error, a filter runs elsewhere.
    let sound: MediaFrame<&str> = MediaFrame::Other("sound");
    assert!(matches!(
        run_frame_stage_emit(&stage, sound),
        StageOutcome::Emitted(out) if matches!(out.primary[0], MediaFrame::Other("sound"))
    ));
    let short: MediaFrame<&str> = MediaFrame::Video(VideoFrame {
        pts: None,
        planes: vec![plane(3, 2), plane(1, 1), plane(1, 1)],
    });
    assert!(matches!(
        run_frame_stage_emit(&stage, short),
        StageOutcome::Failed(oxideav_core::Error::InvalidData(_))
    ));
    let empty = || -> MediaFrame<&str> {
        MediaFrame::Video(VideoFrame {
            pts: None,
            planes: vec![],
        })
    };
    assert!(matches!(
        run_frame_stage_emit(&stage, empty()),
        StageOutcome::Failed(oxideav_core::Error::InvalidData(_))
    ));
    // The last row of a packed picture needs no padding; all of it has to be there.
    let packed = FrameStage::PixConvert {
        from: PixelFormat::Rgb24,
        width: 2,
        height: 2,
        target: PixelFormat::Rgba,
    };
    assert!(matches!(
        run_frame_stage_emit(&packed, empty()),
        StageOutcome::Malformed(_)
    ));
    for (bytes, whole) in [(14, true), (13, false)] {
        let frame: MediaFrame<&str> = MediaFrame::Video(VideoFrame {
            pts: None,
            planes: vec![plane(bytes, 8)],
        });
        match run_frame_stage_emit(&packed, frame) {
            StageOutcome::Emitted(_) => assert!(whole),
            StageOutcome::Malformed(_) => assert!(!whole),
            _ => panic!("packed pictures convert or are short"),
        }
    }
    let any: MediaFrame<&str> = MediaFrame::Other("x");
    assert!(matches!(
        run_frame_stage_emit(&FrameStage::Filter, any),
        StageOutcome::Filter(_)
    ));
    assert!(flush_frame_stage_emit::<&str>(&stage).unwrap().primary.is_empty());
    assert!(flush_frame_stage_emit::<&str>(&FrameStage::Filter).is_none());
}

#[test]
fn conversion_to_the_same_format_changes_nothing() {
    let stage = FrameStage::PixConvert {
        from: PixelFormat::Rgba,
        width: 1,
        height: 1,
        target: PixelFormat::Rgba,
    };
    let frame: MediaFrame<()> = MediaFrame::Video(VideoFrame {
        pts: None,
        planes: vec![Plane {
            stride: 4,
            data: vec![1, 2, 3, 4],
        }],
    });
    match run_frame_stage_emit(&stage, frame) {
        StageOutcome::Emitted(out) => match &out.primary[0] {
            MediaFrame::Video(v) => assert_eq!(v.planes[0].data, vec![1, 2, 3, 4]),
            MediaFrame::Other(_) => panic!("a picture stays a picture"),
        },
        _ => panic!("nothing to convert"),
    }
    // A picture that is not described passes as it is, whatever it holds.
    let unknown = FrameStage::PixConvert {
        from: PixelFormat::Yuv420P,
        width: 0,
        height: 0,
        target: PixelFormat::Yuv420P,
    };
    let bare: MediaFrame<()> = MediaFrame::Video(VideoFrame {
        pts: Some(3),
        planes: vec![],
    });
    assert!(matches!(
        run_frame_stage_emit(&unknown, bare),
        StageOutcome::Emitted(out)
            if matches!(&out.primary[0], MediaFrame::Video(v) if v.pts == Some(3))
    ));
}

#[test]
fn stages_run_breadth_first_and_extras_go_straight_to_the_sink() {
    let mut pump = TrackPump::new(pump_track(vec![FrameStage::Filter, FrameStage::Filter], true));
    let mut stats = ExecutorStats::default();
    pump.feed_packet();
    let two = FilterEmissions {
        primary: vec![10, 11],
        extras: vec![Extra {
            port: 1,
            kind: MediaType::Audio,
            frame: 99,
        }],
    };
    let log = drive(
        &mut pump,
        &mut stats,
        vec![
            Reply::Done,             // send packet
            Reply::Frame(1),         // receive frame
            Reply::Frame(1),         // materialise
            Reply::Emitted(two),     // stage 0
            Reply::Done,             // extra written
            Reply::Emitted(one(20)), // stage 1 on 10
            Reply::Emitted(one(21)), // stage 1 on 11
            Reply::Done,             // encode 20
            Reply::Packet,
            Reply::Done, // packet written
            Reply::NoMore,
            Reply::Done, // encode 21
            Reply::NoMore,
            Reply::NoMore, // no more frames
        ],
    );
    assert_eq!(
        log,
        vec![
            "send packet",
            "receive frame",
            "materialise 1",
            "run 0 on 1",
            "write Audio 99",
            "run 1 on 10",
            "run 1 on 11",
            "encode 20",
            "receive packet",
            "packet to 3",
            "receive packet",
            "encode 21",
            "receive packet",
            "receive frame",
            "finished"
        ]
    );
    assert_eq!(stats.frames_decoded, 1);
    assert_eq!(stats.frames_written, 1);
    assert_eq!(stats.packets_encoded, 1);
}

#[test]
fn the_end_flushes_decoder_stages_and_encoder_in_order() {
    let mut pump = TrackPump::new(pump_track(vec![FrameStage::Filter, FrameStage::Filter], true));
    let mut stats = ExecutorStats::default();
    pump.drain();
    let log = drive(
        &mut pump,
        &mut stats,
        vec![
            Reply::Error("flush failed"), // tolerated
            Reply::NoMore,
            Reply::Emitted(one(5)), // flush 0
            Reply::Emitted(one(6)), // stage 1 on 5
            Reply::Emitted(one(7)), // flush 1
            Reply::Done,            // encode 6
            Reply::NoMore,
            Reply::Done, // encode 7
            Reply::NoMore,
            Reply::Done, // flush encoder
            Reply::Packet,
            Reply::Done,
            Reply::NoMore,
        ],
    );
    assert_eq!(
        log,
        vec![
            "flush decoder",
            "receive frame",
            "flush 0",
            "run 1 on 5",
            "flush 1",
            "encode 6",
            "receive packet",
            "encode 7",
            "receive packet",
            "flush encoder",
            "receive packet",
            "packet to 3",
            "receive packet",
            "finished"
        ]
    );
    assert_eq!(stats.packets_encoded, 1);
}

#[test]
fn decoder_errors_skip_a_packet_once() {
    let mut pump: TrackPump<i64> = TrackPump::new(pump_track(Vec::new(), false));
    let mut stats = ExecutorStats::default();
    pump.feed_packet();
    assert_eq!(
        drive(&mut pump, &mut stats, vec![Reply::Error("bad")]),
        vec!["send packet", "finished"]
    );
    assert_eq!(stats.packets_skipped, 1);
    pump.feed_packet();
    drive(&mut pump, &mut stats, vec![Reply::Done, Reply::Error("bad")]);
    assert_eq!(stats.packets_skipped, 2);
    // An error after a frame of the same packet is no skip.
    pump.feed_packet();
    drive(
        &mut pump,
        &mut stats,
        vec![Reply::Done, Reply::Frame(1), Reply::Done, Reply::Error("late")],
    );
    assert_eq!(stats.packets_skipped, 2);
    assert_eq!(stats.frames_written, 1);
}

#[test]
fn failures_name_stage_and_track() {
    let convert = FrameStage::PixConvert {
        from: PixelFormat::Yuv420P,
        width: 2,
        height: 2,
        target: PixelFormat::Rgba,
    };
    let mut stats = ExecutorStats::default();
    let mut pump = TrackPump::new(pump_track(vec![FrameStage::Filter, convert], true));
    let cases: Vec<(Vec<Reply<i64, &str>>, &str)> = vec![
        (vec![Reply::Error("x")], "failed at convert of track Some(3)"),
        (
            vec![Reply::Frame(1), Reply::Error("x")],
            "failed at filter of track Some(3)",
        ),
        (
            vec![Reply::Frame(1), Reply::Emitted(one(2)), Reply::Error("x")],
            "failed at convert of track Some(3)",
        ),
        (
            vec![
                Reply::Frame(1),
                Reply::Emitted(one(2)),
                Reply::Emitted(one(3)),
                Reply::Error("x"),
            ],
            "failed at encode of track Some(3)",
        ),
        (
            vec![
                Reply::Frame(1),
                Reply::Emitted(one(2)),
                Reply::Emitted(one(3)),
                Reply::Done,
                Reply::Packet,
                Reply::Error("x"),
            ],
            "failed at sink of track Some(3)",
        ),
    ];
    for (replies, end) in cases {
        pump.feed_frame(1);
        assert_eq!(drive(&mut pump, &mut stats, replies).last().unwrap(), end);
    }
    assert_eq!(FailureStage::SinkFinish.name(), "sink-finish");
}

#[test]
fn emissions_are_sorted_by_port() {
    let ports = vec![MediaType::Audio, MediaType::Video];
    let mut out: FilterEmissions<i64> = FilterEmissions::new();
    assert!(out.emit(&ports, 0, 1).is_ok());
    assert!(out.emit(&ports, 1, 2).is_ok());
    let e = out.emit(&ports, 2, 3).err().unwrap();
    assert_eq!(e.kind(), ErrorKind::InvalidData);
    assert_eq!(
        e.message(),
        "filter emitted on port 2 but declared only 2 ports"
    );
    assert_eq!(out.primary, vec![1]);
    assert_eq!(out.extras.len(), 1);
    assert_eq!(out.extras[0].kind, MediaType::Video);
    assert_eq!(out.extras[0].port, 1);
}

fn dag_with_render3d(source: &str, backend: &str) -> Dag {
    let mut dag = Dag::new();
    let leaf = dag
        .push(DagNode::Render3D {
            source: source.to_string(),
            backend: backend.to_string(),
            opts: "{\"width\":4,\"height\":4}".to_string(),
        })
        .unwrap();
    let mux = dag
        .push(DagNode::Mux {
            target: "out".to_string(),
            tracks: vec![MuxTrack {
                kind: MediaType::Video,
                copy: false,
                upstream: leaf,
            }],
        })
        .unwrap();
    assert!(dag.add_root("out".to_string(), mux));
    dag
}

#[test]
fn render3d_without_factory_errors_with_pointer_to_install_api() {
    let dag = dag_with_render3d("scene.gltf", "scanline");
    let mut resolution = SourceResolution::new(dag, false);
    let err = match resolution.next() {
        ResolveStep::Failed(e) => e,
        _ => panic!("resolve_source_shapes should fail with no factory"),
    };
    let msg = err.message();
    assert!(
        msg.contains("render_source_factory"),
        "error message must name the factory slot, got: {msg}"
    );
    assert!(
        msg.contains("with_render_source_factory"),
        "error message must point at the install API, got: {msg}"
    );
    assert_eq!(err.kind(), ErrorKind::Unsupported);
    match resolution.dag.node(0) {
        DagNode::Render3D {
            source, backend, ..
        } => {
            assert_eq!(source, "scene.gltf");
            assert_eq!(backend, "scanline");
        }
        _ => panic!("DAG was mutated despite factory error"),
    }

    // Nor are leaves that were opened before.
    let mut dag = Dag::new();
    dag.push(DagNode::Demuxer {
        source: "gen://x".to_string(),
    });
    dag.push(DagNode::Render3D {
        source: "scene.gltf".to_string(),
        backend: "scanline".to_string(),
        opts: "{}".to_string(),
    });
    let mut resolution = SourceResolution::new(dag, false);
    assert!(matches!(resolution.next(), ResolveStep::Open { .. }));
    resolution.opened(SourceShape::Frames);
    assert!(matches!(
        resolution.next(),
        ResolveStep::Failed(JobError::NoRenderFactory { .. })
    ));
    assert!(matches!(resolution.dag.node(0), DagNode::Demuxer { source } if source == "gen://x"));
    assert!(matches!(resolution.dag.node(1), DagNode::Render3D { .. }));
}

#[test]
fn render3d_with_factory_rewrites_to_frame_source_pump() {
    let dag = dag_with_render3d("scene.gltf", "scanline");
    let mut resolution = SourceResolution::new(dag, true);
    match resolution.next() {
        ResolveStep::Render {
            source,
            backend,
            opts,
        } => {
            assert_eq!(source, "scene.gltf");
            assert_eq!(backend, "scanline");
            let o: serde_json::Value = serde_json::from_str(&opts).unwrap();
            assert_eq!(o["width"], 4);
            assert_eq!(o["height"], 4);
        }
        _ => panic!("factory was not called"),
    }
    resolution.rendered();
    assert!(matches!(resolution.next(), ResolveStep::Done));
    assert_eq!(resolution.opened.len(), 1);
    assert_eq!(resolution.opened[0].uri, "scene.gltf");
    assert_eq!(resolution.opened[0].shape, SourceShape::Frames);
    match resolution.dag.node(0) {
        DagNode::FrameSource { source } => assert_eq!(source, "scene.gltf"),
        _ => panic!("expected FrameSource after resolve"),
    }

    let mut params = audio("pcm_s16le");
    params.sample_rate = Some(8_000);
    let synth = synth_stream_info(&params);
    assert_eq!(synth.index, 0);
    assert_eq!(synth.time_base, TimeBase::new(1, 8_000));
    assert_eq!(synth.params.codec_id, "pcm_s16le");
}

#[test]
fn each_source_is_opened_once_and_leaves_take_its_shape() {
    let mut dag = Dag::new();
    for uri in ["a", "b", "a"] {
        dag.push(DagNode::Demuxer {
            source: uri.to_string(),
        });
    }
    let mut resolution = SourceResolution::new(dag, false);
    assert!(matches!(resolution.next(), ResolveStep::Open { uri } if uri == "a"));
    resolution.opened(SourceShape::Packets);
    assert!(matches!(resolution.next(), ResolveStep::Open { uri } if uri == "b"));
    resolution.opened(SourceShape::Demuxer);
    assert!(matches!(resolution.next(), ResolveStep::Done));
    assert!(matches!(resolution.dag.node(0), DagNode::PacketSource { .. }));
    assert!(matches!(resolution.dag.node(1), DagNode::Demuxer { .. }));
    assert!(matches!(resolution.dag.node(2), DagNode::PacketSource { .. }));
}

#[test]
fn a_render_leaf_must_not_share_its_source() {
    let mut dag = Dag::new();
    dag.push(DagNode::Demuxer {
        source: "x".to_string(),
    });
    dag.push(DagNode::Render3D {
        source: "x".to_string(),
        backend: "b".to_string(),
        opts: "{}".to_string(),
    });
    let mut resolution = SourceResolution::new(dag, true);
    assert!(matches!(resolution.next(), ResolveStep::Open { .. }));
    resolution.opened(SourceShape::Demuxer);
    match resolution.next() {
        ResolveStep::Failed(e) => {
            assert!(matches!(e, JobError::RenderCollision { .. }));
            assert!(e.message().starts_with("Render3D node for source \"x\" collides"));
        }
        _ => panic!("the source is taken"),
    }
}

#[test]
fn opened_sources_are_driven_by_their_kind() {
    let uri = "http://h/clip.MKV?x".to_string();
    assert!(matches!(
        open_source(&uri, OpenedKind::Bytes),
        Ok(SourceAccess::Container { ext: Some(e) }) if e == "mkv"
    ));
    assert!(matches!(
        open_source(&uri, OpenedKind::Packets),
        Ok(SourceAccess::Packets)
    ));
    let e = open_source(&uri, OpenedKind::MultiTitle).err().unwrap();
    assert_eq!(e.kind(), ErrorKind::Unsupported);
    assert!(e.message().starts_with("http://h/clip.MKV?x: this URI opens a multi-title source"));
    assert!(matches!(
        open_source(&uri, OpenedKind::Other),
        Err(JobError::UnknownSourceKind { .. })
    ));
}

#[test]
fn frame_source_clocks() {
    let mut v = CodecParameters::new("raw".to_string(), MediaType::Video);
    v.frame_rate = Some(Rational {
        num: 30_000,
        den: 1_001,
    });
    assert_eq!(synth_stream_info(&v).time_base, TimeBase::new(1_001, 30_000));
    v.frame_rate = None;
    assert_eq!(synth_stream_info(&v).time_base, TimeBase::new(1, 1_000_000));
    let mut a = audio("raw");
    a.sample_rate = Some(0);
    assert_eq!(synth_stream_info(&a).time_base, TimeBase::new(1, 1_000_000));
}

fn chain_dag() -> (Dag, usize) {
    let mut dag = Dag::new();
    let src = dag
        .push(DagNode::Demuxer {
            source: "in".to_string(),
        })
        .unwrap();
    let sel = dag
        .push(DagNode::Select {
            upstream: src,
            selector: ResolvedSelector {
                kind: Some(MediaType::Video),
                index: None,
            },
        })
        .unwrap();
    let dec = dag.push(DagNode::Decode { upstream: sel }).unwrap();
    let fil = dag
        .push(DagNode::Filter {
            upstream: dec,
            name: "scale".to_string(),
            params: "{}".to_string(),
        })
        .unwrap();
    let enc = dag
        .push(DagNode::Encode {
            upstream: fil,
            codec: "h264".to_string(),
            params: "{\"bitrate\": 500}".to_string(),
        })
        .unwrap();
    (dag, enc)
}

fn kinds(stages: &[StageSpec]) -> Vec<&'static str> {
    stages
        .iter()
        .map(|s| match s {
            StageSpec::Decode => "decode",
            StageSpec::Filter { .. } => "filter",
            StageSpec::Convert { .. } => "convert",
            StageSpec::Encode { .. } => "encode",
        })
        .collect()
}

#[test]
fn chains_run_from_source_to_mux() {
    let (mut dag, enc) = chain_dag();
    let t = MuxTrack {
        kind: MediaType::Video,
        copy: false,
        upstream: enc,
    };
    let rt = build_track_runtime(&dag, &t).ok().unwrap();
    assert_eq!(rt.source_uri, "in");
    assert_eq!(rt.selector.kind, Some(MediaType::Video));
    assert_eq!(kinds(&rt.stages), vec!["decode", "filter", "encode"]);
    // Over a frame source nothing is decoded.
    dag.nodes[0] = DagNode::FrameSource {
        source: "in".to_string(),
    };
    let rt = build_track_runtime(&dag, &t).ok().unwrap();
    assert_eq!(kinds(&rt.stages), vec!["filter", "encode"]);
    // Graphs that cannot be run.
    dag.nodes[0] = DagNode::Render3D {
        source: "in".to_string(),
        backend: "b".to_string(),
        opts: String::new(),
    };
    assert!(matches!(
        build_track_runtime(&dag, &t),
        Err(JobError::NestedSelect)
    ));
    let direct = MuxTrack { upstream: 0, ..t };
    let e = build_track_runtime(&dag, &direct).err().unwrap();
    assert!(e.message().starts_with("internal: Render3D node for source \"in\" (backend \"b\")"));
    let mux = dag
        .push(DagNode::Mux {
            target: "o".to_string(),
            tracks: Vec::new(),
        })
        .unwrap();
    let nested = MuxTrack { upstream: mux, ..t };
    let e = build_track_runtime(&dag, &nested).err().unwrap();
    assert_eq!(
        e.message(),
        "job: walked into a Mux node while building track runtime"
    );
    assert!(dag.push(DagNode::Decode { upstream: 99 }).is_none());
}

#[test]
fn selectors_count_within_their_kind() {
    let streams = vec![
        stream(4, MediaType::Video),
        stream(7, MediaType::Audio),
        stream(9, MediaType::Audio),
    ];
    let pick = |kind, index| select_stream(&streams, &ResolvedSelector { kind, index });
    assert_eq!(pick(None, None).ok(), Some(4));
    assert_eq!(pick(Some(MediaType::Audio), None).ok(), Some(7));
    assert_eq!(pick(Some(MediaType::Audio), Some(1)).ok(), Some(9));
    let e = pick(Some(MediaType::Audio), Some(2)).err().unwrap();
    assert_eq!(e.message(), "job: selector index 2 out of range");
    let e = pick(Some(MediaType::Data), None).err().unwrap();
    assert_eq!(
        e.message(),
        "job: no streams match selector ResolvedSelector { kind: Some(Data), index: None }"
    );
}

#[test]
fn all_tracks_fan_out_to_distinct_streams_of_one_kind() {
    let sources = vec![SourceStreams {
        uri: "dual".to_string(),
        streams: vec![
            stream(0, MediaType::Audio),
            stream(1, MediaType::Video),
            stream(2, MediaType::Audio),
        ],
    }];
    let all = track("dual", MediaType::Unknown);
    let out = expand_all_tracks_pump(vec![all, track("other", MediaType::Unknown)], &sources);
    assert_eq!(out.len(), 4);
    let mut picked = Vec::new();
    for t in &out[..3] {
        picked.push(select_stream(&sources[0].streams, &t.selector).ok().unwrap());
    }
    assert_eq!(picked, vec![0, 1, 2]);
    assert_eq!(out[2].kind, MediaType::Audio);
    assert_eq!(out[2].selector.index, Some(1));
    assert_eq!(out[3].source_uri, "other");
}

#[test]
fn tracks_are_prepared_from_graph_and_sources() {
    let (mut dag, enc) = chain_dag();
    let mux = dag
        .push(DagNode::Mux {
            target: "o.mp4".to_string(),
            tracks: vec![MuxTrack {
                kind: MediaType::Video,
                copy: false,
                upstream: enc,
            }],
        })
        .unwrap();
    let mut v = stream(1, MediaType::Video);
    v.params.pixel_format = Some(PixelFormat::Rgb24);
    let sources = vec![
        SourceStreams {
            uri: "unused".to_string(),
            streams: vec![],
        },
        SourceStreams {
            uri: "in".to_string(),
            streams: vec![stream(0, MediaType::Audio), v],
        },
    ];
    let table = vec![CodecFormats {
        codec: "h264".to_string(),
        formats: vec![PixelFormat::Yuv420P],
    }];
    let name = "o.mp4".to_string();
    let tracks = prepare_tracks(&dag, &name, mux, &sources, None, &table)
        .ok()
        .unwrap();
    assert_eq!(tracks.len(), 1);
    assert_eq!(tracks[0].source_stream, 1);
    assert_eq!(
        kinds(&tracks[0].stages),
        vec!["decode", "filter", "convert", "encode"]
    );
    assert_eq!(used_sources(&tracks, &sources), vec![false, true]);

    // A root that is no mux, a source that is not open.
    let e = prepare_tracks(&dag, &name, enc, &sources, None, &table)
        .err()
        .unwrap();
    assert_eq!(
        e.message(),
        "job: output o.mp4: expected Mux root, got Encode { upstream: 3, codec: \"h264\", params: Object {\"bitrate\": Number(500)} }"
    );
    let e = prepare_tracks(&dag, &name, mux, &vec![], Some("[]".to_string()), &table)
        .err()
        .unwrap();
    assert_eq!(
        e.message(),
        "job: track references source \"in\" but no source was opened for that URI \
         (known URIs: []) — this is an internal pipeline-resolver bug"
    );
}

#[test]
fn conversions_are_inserted_only_where_needed() {
    let table = vec![CodecFormats {
        codec: "e".to_string(),
        formats: vec![PixelFormat::Yuv420P, PixelFormat::Rgba],
    }];
    let stages = || {
        vec![
            StageSpec::Decode,
            StageSpec::Encode {
                codec: "e".to_string(),
                params: String::new(),
            },
        ]
    };
    let run = |format: Option<PixelFormat>| {
        let mut t = track("x", MediaType::Video);
        t.stages = stages();
        t.input_params.pixel_format = format;
        apply_pixel_format_auto_insert(&mut t, &table);
        let once = kinds(&t.stages);
        apply_pixel_format_auto_insert(&mut t, &table);
        assert_eq!(kinds(&t.stages), once);
        once
    };
    assert_eq!(run(Some(PixelFormat::Rgb24)), vec!["decode", "convert", "encode"]);
    assert_eq!(run(Some(PixelFormat::Rgba)), vec!["decode", "encode"]);
    assert_eq!(run(None), vec!["decode", "encode"]);

    // A track that starts with frames is fed the source's format.
    let mut t = track("gen", MediaType::Video);
    t.stages = stages().split_off(1);
    t.input_params.pixel_format = Some(PixelFormat::Rgb24);
    apply_pixel_format_auto_insert(&mut t, &table);
    assert_eq!(kinds(&t.stages), vec!["convert", "encode"]);
    assert!(matches!(
        t.stages[0],
        StageSpec::Convert {
            target: PixelFormat::Yuv420P
        }
    ));

    // The first encoder of a codec that names formats speaks for it.
    let offers = vec![vec![], vec![PixelFormat::Rgba], vec![PixelFormat::Rgb24]];
    assert_eq!(codec_accepted_pixel_formats(&offers), Some(1));
    assert_eq!(codec_accepted_pixel_formats(&vec![vec![]]), None);
}

#[test]
fn resolved_inputs_take_over_the_stream() {
    let mut t = track("x", MediaType::Audio);
    let mut s = stream(5, MediaType::Audio);
    s.start_time = None;
    s.duration = Some(77);
    assert!(resolve_input(&mut t, &vec![s]).is_ok());
    assert_eq!(t.source_stream, 5);
    assert_eq!(t.input_start_time, None);
    assert_eq!(t.input_duration, Some(77));
    assert_eq!(t.input_time_base, TimeBase::new(1, 1000));
    assert!(resolve_input(&mut t, &vec![]).is_err());
}

fn caps() -> CodecCapabilities {
    CodecCapabilities {
        implementation: "sw".to_string(),
        hardware_accelerated: false,
        priority: 1,
        max_width: None,
        max_height: None,
        max_bitrate: None,
        max_sample_rate: None,
        max_channels: None,
    }
}

fn audio_port(rate: u32) -> PortSpec {
    PortSpec {
        name: "p".to_string(),
        kind: MediaType::Audio,
        params: PortParams::Audio {
            sample_rate: rate,
            channels: 2,
            format: SampleFormat::S16,
        },
    }
}

fn video_port() -> PortSpec {
    PortSpec {
        name: "v".to_string(),
        kind: MediaType::Video,
        params: PortParams::Video {
            width: 320,
            height: 200,
            format: PixelFormat::Rgba,
            time_base: TimeBase::new(1, 25),
        },
    }
}

#[test]
fn instantiation_follows_the_running_format() {
    let mut t = track("x", MediaType::Audio);
    t.input_params = audio("mp3");
    t.input_params.sample_rate = Some(44_100);
    t.input_params.channels = Some(2);
    t.input_time_base = TimeBase::new(1, 44_100);
    t.stages = vec![
        StageSpec::Decode,
        StageSpec::Decode,
        StageSpec::Filter {
            name: "spectrogram".to_string(),
            params: "{}".to_string(),
        },
        StageSpec::Encode {
            codec: "opus".to_string(),
            params: "{\"bitrate\": 96000, \"channels\": 65537, \"width\": \"x\"}".to_string(),
        },
    ];
    let mut b = Instantiation::new(t);
    assert!(matches!(b.next(), BuildStep::Decoder { params } if params.codec_id == "mp3"));
    b.decoder_ready(caps(), None);
    match b.next() {
        BuildStep::Filter { name, input, .. } => {
            assert_eq!(name, "spectrogram");
            assert_eq!(input.name, "in");
            assert!(matches!(
                input.params,
                PortParams::Audio { sample_rate: 44_100, channels: 2, format: SampleFormat::F32 }
            ));
        }
        _ => panic!("the second decode is passed over"),
    }
    assert!(b
        .filter_ready(&vec![audio_port(44_100)], &vec![audio_port(48_000), video_port()])
        .is_ok());
    match b.next() {
        BuildStep::Encoder { params } => {
            assert_eq!(params.codec_id, "opus");
            assert_eq!(params.bit_rate, Some(96_000));
            assert_eq!(params.sample_rate, Some(48_000));
            assert_eq!(params.channels, Some(1));
            assert_eq!(params.width, None);
        }
        _ => panic!("the encoder comes last"),
    }
    let mut out = audio("opus");
    out.sample_rate = Some(48_000);
    b.encoder_ready(out);
    assert!(matches!(b.next(), BuildStep::Done));
    let t = b.track;
    assert_eq!(t.encoder_time_base, Some(TimeBase::new(1, 48_000)));
    assert_eq!(t.frame_stages.len(), 1);
    assert_eq!(t.extra_output_port_counts, vec![1]);
    assert_eq!(t.extra_output_streams.len(), 1);
    let extra = &t.extra_output_streams[0];
    assert_eq!(extra.index, 1);
    assert_eq!(extra.params.codec_id, "rawvideo");
    assert_eq!(extra.params.frame_rate, Some(Rational { num: 25, den: 1 }));
    assert_eq!(t.pipeline_info().decoder.unwrap().implementation, "sw");
}

#[test]
fn a_filter_without_outputs_is_refused() {
    let mut t = track("x", MediaType::Audio);
    t.stages = vec![StageSpec::Filter {
        name: "null".to_string(),
        params: "{}".to_string(),
    }];
    let mut b = Instantiation::new(t);
    assert!(matches!(b.next(), BuildStep::Filter { .. }));
    let e = b.filter_ready(&vec![], &vec![]).err().unwrap();
    assert_eq!(e.message(), "filter 'null' declares zero output ports");
}

#[test]
fn overrides_are_read_from_json() {
    let o = EncodeOverrides::read("{\"bitrate\": 1, \"height\": 4294967297, \"channels\": -1}");
    assert_eq!(o.bitrate, Some(1));
    assert_eq!(o.height, Some(4_294_967_297));
    assert_eq!(o.channels, None);
    assert_eq!(EncodeOverrides::read("not json").bitrate, None);
}

#[test]
fn ports_describe_streams() {
    assert!(port_params_equal(&audio_port(8).params, &audio_port(8).params));
    assert!(!port_params_equal(&audio_port(8).params, &audio_port(9).params));
    assert!(port_params_equal(&video_port().params, &video_port().params));
    assert!(!port_params_equal(&video_port().params, &PortParams::Subtitle));
    assert!(port_params_equal(&PortParams::Metadata, &PortParams::Metadata));
    let (cp, tb) = extra_port_stream(&audio_port(0).params);
    assert_eq!(cp.codec_id, "rawaudio");
    assert_eq!(tb, TimeBase::new(1, 1));
    let (cp, tb) = extra_port_stream(&PortParams::Subtitle);
    assert_eq!((cp.codec_id.as_str(), tb), ("rawsubtitle", TimeBase::new(1, 1000)));
    let v = CodecParameters::new("x".to_string(), MediaType::Video);
    let p = port_spec_from_params(&v, TimeBase::new(1, 25));
    assert!(matches!(
        p.params,
        PortParams::Video { width: 0, height: 0, format: PixelFormat::Yuv420P, .. }
    ));
}

#[test]
fn sinks_are_planned_by_name() {
    let plan = |n: &str, o: bool| open_sink(&n.to_string(), o);
    assert!(matches!(plan("@display", true), Ok(SinkPlan::Override)));
    assert!(matches!(plan("@null", false), Ok(SinkPlan::Null)));
    assert!(matches!(plan("out.mp4", false), Ok(SinkPlan::File)));
    let e = plan("@display", false).err().unwrap();
    assert_eq!(
        e.message(),
        "job: no handler registered for reserved sink @display (use with_sink_override)"
    );
    let e = plan("@x", false).err().unwrap();
    assert_eq!(e.message(), "job: alias @x cannot be used as an output sink");
    let name = "out".to_string();
    assert!(matches!(
        file_format(&name, None, None),
        Err(JobError::NoExtension { .. })
    ));
    let e = file_format(&name, Some("xyz".to_string()), None).err().unwrap();
    assert_eq!(e.kind(), ErrorKind::FormatNotFound);
    assert_eq!(e.message(), "no muxer registered for extension .xyz");
    assert_eq!(
        file_format(&name, Some("mkv".to_string()), Some("matroska".to_string())).ok(),
        Some("matroska".to_string())
    );
}

#[test]
fn rescaling_rounds_to_the_nearest_tick() {
    let a = TimeBase::new(1, 3);
    let b = TimeBase::new(1, 2);
    assert_eq!(a.rescale(1, b), 1);
    assert_eq!(a.rescale(-1, b), -1);
    assert_eq!(TimeBase::new(1, 4).rescale(1, b), 1);
    assert_eq!(TimeBase::new(1, 4).rescale(-1, b), -1);
    assert_eq!(TimeBase::new(1, 5).rescale(1, b), 0);
    assert_eq!(TimeBase::new(1, 0).rescale(7, b), 0);
    assert_eq!(TimeBase::new(1, 0).rescale_checked(7, b), None);
    let year = TimeBase::new(31_536_000, 1);
    let nano = TimeBase::new(1, 1_000_000_000);
    assert_eq!(year.rescale(i64::MAX, nano), i64::MAX);
    assert_eq!(year.rescale_checked(i64::MAX, nano), None);
    assert_eq!(year.rescale(i64::MIN, nano), i64::MIN);
}
