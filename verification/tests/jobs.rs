use oxideav_pipeline::error::{ErrorKind, JobError};
use oxideav_pipeline::executor::{
    choose_threads, plan_job, Executor, JobCommand, JobPlan, JobReply, JobRun, wave_result,
};
use oxideav_pipeline::failure::{Cause, FailureStage, RunFailure, StageFailure};
use oxideav_pipeline::handle::{ExecutorHandle, JoinOutcome, PipelineTopology};
use oxideav_pipeline::media::{CodecParameters, MediaType, StreamInfo, TimeBase};
use oxideav_pipeline::pipeline::{
    Pipeline, RouteMode, RunCommand, RunReply, SinkAcceptance,
};
use oxideav_pipeline::staged::Progress;
use oxideav_pipeline::stats::ExecutorStats;
use oxideav_pipeline::text::{decimal, quote_list};
use oxideav_pipeline::transcode::{
    build_encoder_params, remux, transcode, transcode_simple, RemuxCommand, RemuxReply,
    SetupStep, StreamPlan, TranscodeCommand, TranscodeReply, TranscodeRun,
};

fn names(n: usize) -> Vec<String> {
    (0..n).map(|i| format!("out{i}")).collect()
}

fn stats(frames: u64) -> ExecutorStats {
    ExecutorStats {
        frames_written: frames,
        ..Default::default()
    }
}

fn failed(what: &'static str) -> StageFailure<&'static str> {
    StageFailure::new(FailureStage::Encode, Some(0), Cause::Raised(what))
}

#[test]
fn thread_budgets_have_precedence() {
    assert_eq!(choose_threads(Some(3), Some(5), 8), 3);
    assert_eq!(choose_threads(Some(0), Some(5), 8), 5);
    assert_eq!(choose_threads(None, Some(0), 8), 8);
    assert!(Executor::new().resolve_threads(None) >= 1);
    assert_eq!(Executor::new().with_threads(6).resolve_threads(Some(2)), 6);
}

#[test]
fn budgets_are_split_over_waves() {
    assert_eq!(
        plan_job(8, 3),
        JobPlan {
            outputs: 3,
            width: 3,
            per_output: 2,
            pipelined: true,
            waves: true
        }
    );
    let p = plan_job(4, 64);
    assert_eq!((p.width, p.per_output), (4, 1));
    let p = plan_job(1, 5);
    assert!(!p.pipelined && !p.waves);
    let p = plan_job(4, 1);
    assert!(p.pipelined && !p.waves);
    assert_eq!(p.per_output, 4);
}

#[test]
fn serial_jobs_run_one_output_after_the_other() {
    let mut run = JobRun::new(names(3), 1, false);
    let start: JobReply<&str> = JobReply::Start;
    assert!(matches!(run.step(start), JobCommand::RunSerial { output: 0 }));
    let ok: JobReply<&str> = JobReply::Ran(Ok(stats(2)));
    assert!(matches!(run.step(ok), JobCommand::RunSerial { output: 1 }));
    match run.step(JobReply::Ran(Err(failed("bad")))) {
        JobCommand::Failed { failure, .. } => {
            assert_eq!(failure.output.as_deref(), Some("out1"));
            assert_eq!(failure.stage, FailureStage::Encode);
            assert!(matches!(failure.error, Cause::Raised("bad")));
        }
        _ => panic!("the failure ends the job"),
    }
}

#[test]
fn the_earliest_failing_output_of_a_wave_decides() {
    let mut run = JobRun::new(names(5), 2, true);
    let mut prepared = Vec::new();
    let mut reply: JobReply<&'static str> = JobReply::Start;
    loop {
        match run.step(reply) {
            JobCommand::Prepare { output, threads } => {
                assert_eq!(threads, 1);
                prepared.push(output);
                reply = JobReply::Prepared;
            }
            JobCommand::RunWave { first, end } => {
                assert_eq!(end - first, 2);
                reply = if first == 0 {
                    JobReply::WaveRan(vec![Ok(stats(1)), Ok(stats(2))])
                } else {
                    JobReply::WaveRan(vec![Err(failed("third")), Err(failed("fourth"))])
                };
            }
            JobCommand::Failed {
                failure,
                discard_from,
                discard_to,
            } => {
                assert_eq!(failure.output.as_deref(), Some("out2"));
                assert!(matches!(failure.error, Cause::Raised("third")));
                assert_eq!((discard_from, discard_to), (0, 0));
                break;
            }
            _ => panic!("waves only"),
        }
    }
    assert_eq!(prepared, vec![0, 1, 2, 3]);
    let ran: Option<Result<ExecutorStats, StageFailure<&str>>> = Some(Ok(stats(4)));
    assert_eq!(wave_result(ran).ok().map(|s| s.frames_written), Some(4));
    let panicked: Option<Result<ExecutorStats, StageFailure<&str>>> = None;
    let f = wave_result(panicked).err().unwrap();
    assert_eq!(f.stage, FailureStage::Sink);
    match f.error {
        Cause::Own(e) => assert_eq!(e.message(), "pipeline: output worker thread panicked"),
        Cause::Raised(_) => panic!("the library words a panic"),
    }
}

#[test]
fn all_waves_add_up() {
    let mut run = JobRun::new(names(3), 2, false);
    let mut reply: JobReply<&'static str> = JobReply::Start;
    let total = loop {
        match run.step(reply) {
            JobCommand::Prepare { .. } => reply = JobReply::Prepared,
            JobCommand::RunWave { first, end } => {
                reply = JobReply::WaveRan((first..end).map(|i| Ok(stats(i as u64 + 1))).collect());
            }
            JobCommand::Finished(s) => break s,
            _ => panic!("nothing fails"),
        }
    };
    assert_eq!(total.frames_written, 6);
}

#[test]
fn a_failed_preparation_discards_the_prepared_wave_mates() {
    for discard in [true, false] {
        let mut run = JobRun::new(names(4), 4, discard);
        let start: JobReply<&str> = JobReply::Start;
        run.step(start);
        let ok: JobReply<&str> = JobReply::Prepared;
        run.step(ok);
        match run.step(JobReply::PrepareFailed(Cause::Raised("no codec"))) {
            JobCommand::Failed {
                failure,
                discard_from,
                discard_to,
            } => {
                assert_eq!(failure.output.as_deref(), Some("out1"));
                assert_eq!(failure.stage, FailureStage::Prepare);
                assert_eq!(discard_from..discard_to, if discard { 0..1 } else { 0..0 });
            }
            _ => panic!("the preparation failed"),
        }
    }
}

#[test]
fn only_one_output_can_be_spawned() {
    let config = Executor::new().with_threads(1);
    assert_eq!(config.spawn(1, None).ok(), Some(2));
    let e = config.spawn(0, None).err().unwrap();
    assert_eq!(e.message(), "job: no outputs to spawn");
    let e = config.spawn(2, None).err().unwrap();
    assert_eq!(e.kind(), ErrorKind::InvalidData);
    assert_eq!(
        e.message(),
        "job: spawn() supports a single output today; use run() for multi-output jobs"
    );
}

#[test]
fn configuration_is_kept() {
    let c = Executor::new()
        .with_sink_override(&"@display".to_string())
        .with_max_queue_bytes(5)
        .with_discard_failed_outputs(true)
        .with_render_source_factory();
    assert!(c.has_override(&"@display".to_string()));
    assert!(!c.has_override(&"@out".to_string()));
    assert_eq!(c.max_queue_bytes, 5);
    assert!(c.discard_failed_outputs && c.has_render_factory);
    assert_eq!(c.capacities(), (16, 8));
}

fn handle() -> ExecutorHandle {
    ExecutorHandle::start(
        "out.mp4".to_string(),
        Vec::new(),
        PipelineTopology {
            output_name: "out.mp4".to_string(),
            packet_channel_capacity: 16,
            frame_channel_capacity: 8,
            tracks: Vec::new(),
        },
    )
}

#[test]
fn generations_start_at_one_and_wrap() {
    let mut h = handle();
    let tb = TimeBase::new(1, 1000);
    let a = h.seek_with_generation(0, 5, tb);
    let b = h.seek_with_generation(0, 6, tb);
    assert_eq!((a.generation, b.generation), (1, 2));
    assert_eq!(ExecutorHandle::seek(&b, true).ok(), Some(2));
    let e = ExecutorHandle::seek(&b, false).err().unwrap();
    assert_eq!(
        e.message(),
        "ExecutorHandle: seek channel closed (executor exited)"
    );
    assert_ne!(a.generation, b.generation);
    h.generation = u32::MAX;
    assert_eq!(h.seek_with_generation(0, 0, tb).generation, 0);
}

#[test]
fn stopping_reports_where_it_failed() {
    let mut h = handle();
    h.request_abort();
    assert!(h.abort_requested && !h.has_finished());
    let outcome: JoinOutcome<&str> = JoinOutcome::Returned(Err(failed("boom")));
    let report = h.stop_reporting(outcome).err().unwrap();
    assert_eq!(report.output.as_deref(), Some("out.mp4"));
    assert_eq!(report.track, Some(0));
    assert!(matches!(report.into_error(), Cause::Raised("boom")));

    let panicked: JoinOutcome<&str> = JoinOutcome::Panicked;
    match handle().stop(panicked) {
        Err(Cause::Own(e)) => assert_eq!(e.message(), "ExecutorHandle: worker thread panicked"),
        _ => panic!("a panic is an error"),
    }
    let gone: JoinOutcome<&str> = JoinOutcome::Gone;
    let report = handle().stop_reporting(gone).err().unwrap();
    assert_eq!(report.stage, FailureStage::Prepare);
    assert!(matches!(report.error, Cause::Own(JobError::StoppedTwice)));

    let mut h = handle();
    h.mark_finished();
    assert!(h.has_finished());

    let plain = Executor::run(Err(RunFailure::job_level(Cause::Raised("x"))));
    assert!(matches!(plain, Err(Cause::Raised("x"))));
}

#[test]
fn the_latest_report_wins() {
    let p = |frames| Progress {
        frames,
        ..Default::default()
    };
    assert!(ExecutorHandle::try_progress(&vec![]).is_none());
    assert_eq!(
        ExecutorHandle::try_progress(&vec![p(1), p(2)]).unwrap().frames,
        2
    );
}

fn input(index: u32, kind: MediaType) -> StreamInfo {
    let mut params = CodecParameters::new("in".to_string(), kind);
    params.sample_rate = Some(44_100);
    params.width = Some(64);
    StreamInfo {
        index,
        time_base: TimeBase::new(1, 90_000),
        duration: Some(10),
        start_time: Some(3),
        params,
    }
}

#[test]
fn routes_follow_what_sinks_accept() {
    let mut p = Pipeline::new(vec![input(3, MediaType::Audio), input(4, MediaType::Video)]);
    assert_eq!(p.streams().len(), 2);
    assert!(matches!(
        p.bind(3, &SinkAcceptance::Copy),
        Ok(RouteMode::Copy)
    ));
    let same = SinkAcceptance::Transcode {
        target: input(0, MediaType::Audio).params,
    };
    assert!(matches!(
        p.bind_first(MediaType::Audio, &same),
        Ok(RouteMode::Copy)
    ));
    let mut other_rate = input(0, MediaType::Audio).params;
    other_rate.sample_rate = Some(8_000);
    let decode = SinkAcceptance::Transcode { target: other_rate };
    assert!(matches!(p.bind(3, &decode), Ok(RouteMode::Decode)));
    let other = SinkAcceptance::Transcode {
        target: CodecParameters::new("vp9".to_string(), MediaType::Video),
    };
    assert!(matches!(p.bind(4, &other), Ok(RouteMode::Transcode)));
    let e = p.bind(4, &SinkAcceptance::Reject).err().unwrap();
    assert_eq!(e.message(), "sink rejected stream");
    let e = p.bind(9, &SinkAcceptance::Copy).err().unwrap();
    assert_eq!(e.message(), "no stream with index 9");
    let e = p
        .bind_first(MediaType::Subtitle, &SinkAcceptance::Copy)
        .err()
        .unwrap();
    assert_eq!(e.message(), "no Subtitle stream in source");
    assert_eq!(p.prepare(), Some(vec![3, 3, 3, 4]));
    assert_eq!(p.prepare(), None);
    let e = p.bind(3, &SinkAcceptance::Copy).err().unwrap();
    assert_eq!(e.message(), "pipeline already prepared");
}

#[test]
fn a_pipeline_copies_decodes_and_encodes() {
    let mut p = Pipeline::new(vec![input(0, MediaType::Audio), input(1, MediaType::Video)]);
    assert!(p.bind(0, &SinkAcceptance::Copy).is_ok());
    let other = SinkAcceptance::Transcode {
        target: CodecParameters::new("vp9".to_string(), MediaType::Video),
    };
    assert!(p.bind(1, &other).is_ok());
    let (mut run, active) = p.run();
    assert_eq!(active, Some(vec![0, 1]));
    let script: Vec<(RunReply<i64, &str>, &str)> = vec![
        (RunReply::Start, "read"),
        (RunReply::Packet { stream: 0 }, "copy 0"),
        (RunReply::Done, "read"),
        (RunReply::Packet { stream: 7 }, "read"),
        (RunReply::Packet { stream: 1 }, "send 1"),
        (RunReply::Done, "frame 1"),
        (RunReply::Frame(5), "materialise 5"),
        (RunReply::Frame(5), "encode 5"),
        (RunReply::Done, "packet 1"),
        (RunReply::HavePacket, "write 1"),
        (RunReply::Done, "packet 1"),
        (RunReply::NoMore, "frame 1"),
        (RunReply::NoMore, "read"),
        (RunReply::Eof, "flush sink 0"),
        (RunReply::Done, "flush decoder 1"),
        (RunReply::Done, "frame 1"),
        (RunReply::NoMore, "flush encoder 1"),
        (RunReply::Done, "packet 1"),
        (RunReply::HavePacket, "write 1"),
        (RunReply::Done, "packet 1"),
        (RunReply::NoMore, "flush sink 1"),
        (RunReply::Done, "finished"),
    ];
    for (reply, want) in script {
        let got = match run.step(reply) {
            RunCommand::Read => "read".to_string(),
            RunCommand::CopyPacket { route } => format!("copy {route}"),
            RunCommand::SendPacket { route } => format!("send {route}"),
            RunCommand::ReceiveFrame { route } => format!("frame {route}"),
            RunCommand::WriteFrame { route, .. } => format!("write frame {route}"),
            RunCommand::Materialise { frame } => format!("materialise {frame}"),
            RunCommand::SendFrame { frame, .. } => format!("encode {frame}"),
            RunCommand::ReceivePacket { route } => format!("packet {route}"),
            RunCommand::WritePacket { route } => format!("write {route}"),
            RunCommand::FlushDecoder { route } => format!("flush decoder {route}"),
            RunCommand::FlushEncoder { route } => format!("flush encoder {route}"),
            RunCommand::FlushSink { route } => format!("flush sink {route}"),
            RunCommand::Finished(s) => {
                assert_eq!(
                    (s.packets_read, s.packets_copied, s.packets_dropped),
                    (3, 1, 1)
                );
                assert_eq!((s.frames_decoded, s.packets_encoded), (1, 2));
                "finished".to_string()
            }
            RunCommand::Failed(e) => format!("failed {e}"),
        };
        assert_eq!(got, want);
    }
}

#[test]
fn output_streams_are_planned_densely() {
    let mut setup = transcode_simple(vec![
        input(5, MediaType::Video),
        input(6, MediaType::Audio),
        input(7, MediaType::Audio),
    ]);
    assert!(matches!(setup.next(), SetupStep::Plan { stream: 0 }));
    setup.plan(StreamPlan::Drop);
    setup.plan(StreamPlan::Copy);
    assert!(matches!(setup.next(), SetupStep::Plan { stream: 2 }));
    setup.plan(StreamPlan::Reencode {
        output_codec: "opus".to_string(),
    });
    assert!(matches!(setup.next(), SetupStep::MakeDecoder { params } if params.codec_id == "in"));
    setup.decoder_ready();
    match setup.next() {
        SetupStep::MakeEncoder { params } => {
            assert_eq!(params.codec_id, "opus");
            assert_eq!(params.sample_rate, Some(44_100));
            assert_eq!(params.width, None);
        }
        _ => panic!("the encoder follows the decoder"),
    }
    let mut out = CodecParameters::new("opus".to_string(), MediaType::Audio);
    out.sample_rate = Some(48_000);
    setup.encoder_ready(out);
    assert!(matches!(setup.next(), SetupStep::OpenMuxer));
    assert_eq!(setup.outputs.len(), 2);
    assert_eq!((setup.outputs[0].index, setup.outputs[1].index), (0, 1));
    assert_eq!(setup.outputs[0].start_time, Some(3));
    assert_eq!(setup.outputs[1].start_time, Some(0));
    assert_eq!(setup.outputs[1].time_base, TimeBase::new(1, 48_000));
    assert_eq!(setup.routes[1].input, 7);

    let e = transcode_simple(vec![]).next();
    assert!(matches!(e, SetupStep::Failed(JobError::NoInputStreams)));
    let mut all_dropped = transcode_simple(vec![input(0, MediaType::Audio)]);
    all_dropped.plan(StreamPlan::Drop);
    match all_dropped.next() {
        SetupStep::Failed(e) => assert_eq!(
            e.message(),
            "every input stream was dropped — nothing to mux"
        ),
        _ => panic!("nothing is left"),
    }
    let e = build_encoder_params(&"x".to_string(), &input(2, MediaType::Data))
        .err()
        .unwrap();
    assert_eq!(
        e.message(),
        "transcode_simple Reencode: cannot reencode Data stream 2"
    );
    assert_eq!(transcode().err().unwrap().message(), "use transcode_simple");
}

#[test]
fn transcoding_flushes_encoders_before_the_trailer() {
    let mut setup = transcode_simple(vec![input(5, MediaType::Audio), input(6, MediaType::Audio)]);
    setup.plan(StreamPlan::Copy);
    setup.plan(StreamPlan::Reencode {
        output_codec: "opus".to_string(),
    });
    setup.decoder_ready();
    setup.encoder_ready(CodecParameters::new("opus".to_string(), MediaType::Audio));
    let mut run = TranscodeRun::new(setup.routes);
    let script: Vec<(TranscodeReply<i64, &str>, &str)> = vec![
        (TranscodeReply::Start, "header"),
        (TranscodeReply::Done, "read"),
        (TranscodeReply::Packet { stream: 5 }, "copy 0"),
        (TranscodeReply::Done, "read"),
        (TranscodeReply::Packet { stream: 9 }, "read"),
        (TranscodeReply::Packet { stream: 6 }, "send 1"),
        (TranscodeReply::Done, "frame 1"),
        (TranscodeReply::NoMore, "read"),
        (TranscodeReply::Eof, "flush decoder 1"),
        (TranscodeReply::Done, "frame 1"),
        (TranscodeReply::Frame(1), "encode 1"),
        (TranscodeReply::Done, "packet 1"),
        (TranscodeReply::NoMore, "frame 1"),
        (TranscodeReply::NoMore, "flush encoder 1"),
        (TranscodeReply::Done, "packet 1"),
        (TranscodeReply::HavePacket, "write 1"),
        (TranscodeReply::Done, "packet 1"),
        (TranscodeReply::NoMore, "trailer"),
        (TranscodeReply::Done, "finished 3 2 1"),
    ];
    for (reply, want) in script {
        let got = match run.step(reply) {
            TranscodeCommand::WriteHeader => "header".to_string(),
            TranscodeCommand::Read => "read".to_string(),
            TranscodeCommand::CopyPacket { out_index } => format!("copy {out_index}"),
            TranscodeCommand::SendPacket { route } => format!("send {route}"),
            TranscodeCommand::ReceiveFrame { route } => format!("frame {route}"),
            TranscodeCommand::SendFrame { frame, .. } => format!("encode {frame}"),
            TranscodeCommand::ReceivePacket { route } => format!("packet {route}"),
            TranscodeCommand::WritePacket { out_index } => format!("write {out_index}"),
            TranscodeCommand::FlushDecoder { route } => format!("flush decoder {route}"),
            TranscodeCommand::FlushEncoder { route } => format!("flush encoder {route}"),
            TranscodeCommand::WriteTrailer => "trailer".to_string(),
            TranscodeCommand::Finished(s) => format!(
                "finished {} {} {}",
                s.packets_in, s.packets_out, s.frames_decoded
            ),
            TranscodeCommand::Failed(e) => format!("failed {e}"),
        };
        assert_eq!(got, want);
    }
}

#[test]
fn remuxing_counts_packets_and_stops_at_the_first_error() {
    let mut run = remux();
    let start: RemuxReply<&str> = RemuxReply::Start;
    assert!(matches!(run.step(start), RemuxCommand::WriteHeader));
    let done: RemuxReply<&str> = RemuxReply::Done;
    assert!(matches!(run.step(done), RemuxCommand::Read));
    let packet: RemuxReply<&str> = RemuxReply::Packet;
    assert!(matches!(run.step(packet), RemuxCommand::WritePacket));
    let done: RemuxReply<&str> = RemuxReply::Done;
    assert!(matches!(run.step(done), RemuxCommand::Read));
    let eof: RemuxReply<&str> = RemuxReply::Eof;
    assert!(matches!(run.step(eof), RemuxCommand::WriteTrailer));
    let done: RemuxReply<&str> = RemuxReply::Done;
    assert!(matches!(run.step(done), RemuxCommand::Finished(1)));
    let mut run = remux();
    assert!(matches!(
        run.step(RemuxReply::Error("x")),
        RemuxCommand::Failed("x")
    ));
}

#[test]
fn merging_adds_every_counter() {
    let mut a = ExecutorStats {
        packets_read: 1,
        packets_copied: 2,
        packets_encoded: 3,
        frames_decoded: 4,
        frames_written: 5,
        packets_skipped: 6,
    };
    let b = a;
    a.merge(&b);
    assert_eq!(
        a,
        ExecutorStats {
            packets_read: 2,
            packets_copied: 4,
            packets_encoded: 6,
            frames_decoded: 8,
            frames_written: 10,
            packets_skipped: 12,
        }
    );
}

#[test]
fn numbers_and_lists_are_written_out() {
    assert_eq!(decimal(0), "0");
    assert_eq!(decimal(u64::MAX), "18446744073709551615");
    assert_eq!(quote_list(&vec![]), "[]");
    assert_eq!(
        quote_list(&vec!["a".to_string(), "b\"c".to_string()]),
        "[\"a\", \"b\\\"c\"]"
    );
}
