use oxideav_pipeline::decode_stage::{DecodeCommand, DecodeReply, DecodeStage};
use oxideav_pipeline::error::JobError;
use oxideav_pipeline::failure::{Cause, FailureStage, StageFailure};
use oxideav_pipeline::media::{
    CodecParameters, MediaType, SampleFormat, StreamInfo, TimeBase,
};
use oxideav_pipeline::staged::{
    deliver, record_sink_result, resolve_seek_target, AbortState, ChannelCaps, Downstream, Fault,
    Item, PipelineCounters, Progress, QueueBudget, SeekCmd, Sent, Shared, FRAME_CAP, PACKET_CAP,
};
use oxideav_pipeline::workers::Msg;

fn stream_info(index: u32, tb: TimeBase) -> StreamInfo {
    StreamInfo {
        index,
        time_base: tb,
        duration: None,
        start_time: Some(0),
        params: CodecParameters::new("t".to_string(), MediaType::Audio),
    }
}

fn cmd(stream_idx: u32, pts: i64, tb: TimeBase) -> SeekCmd {
    SeekCmd {
        stream_idx,
        pts,
        time_base: tb,
        generation: 7,
    }
}

#[test]
fn seek_target_primary_stream_passes_through_verbatim() {
    let routes: Vec<u32> = vec![0, 2];
    let streams = vec![
        stream_info(0, TimeBase::new(1, 8_000)),
        stream_info(2, TimeBase::new(1, 90_000)),
    ];
    let c = cmd(2, 12_345, TimeBase::new(1, 90_000));
    let (s, p, tb) = resolve_seek_target(&routes, &streams, &c);
    assert_eq!(s, 2);
    assert_eq!(p, 12_345);
    assert_eq!(tb, TimeBase::new(1, 90_000));
}

#[test]
fn seek_target_foreign_stream_rescales_to_first_route() {
    let routes: Vec<u32> = vec![1];
    let streams = vec![
        stream_info(0, TimeBase::new(1, 8_000)),
        stream_info(1, TimeBase::new(1, 90_000)),
    ];
    let c = cmd(5, 240_000, TimeBase::new(1, 8_000));
    let (s, p, tb) = resolve_seek_target(&routes, &streams, &c);
    assert_eq!(s, 1);
    assert_eq!(p, 2_700_000);
    assert_eq!(tb, TimeBase::new(1, 90_000));
}

#[test]
fn seek_target_foreign_stream_without_info_passes_pts_unscaled() {
    let routes: Vec<u32> = vec![3];
    let streams = vec![stream_info(0, TimeBase::new(1, 8_000))];
    let c = cmd(9, 4_242, TimeBase::new(1, 1_000));
    let (s, p, tb) = resolve_seek_target(&routes, &streams, &c);
    assert_eq!(s, 3);
    assert_eq!(p, 4_242);
    assert_eq!(tb, TimeBase::new(1, 1_000));
}

#[test]
fn seek_target_no_routes_falls_back_to_command() {
    let routes: Vec<u32> = vec![];
    let streams: Vec<StreamInfo> = vec![];
    let c = cmd(0, 99, TimeBase::new(1, 48_000));
    let (s, p, tb) = resolve_seek_target(&routes, &streams, &c);
    assert_eq!(s, 0);
    assert_eq!(p, 99);
    assert_eq!(tb, TimeBase::new(1, 48_000));
}

#[test]
fn seek_target_matching_index_on_another_clock_rescales() {
    // Indices are local to each source: stream zero of this source runs on
    // another clock than the stream zero that was asked for.
    let routes: Vec<u32> = vec![0];
    let streams = vec![stream_info(0, TimeBase::new(1, 90_000))];
    let c = cmd(0, 240_000, TimeBase::new(1, 8_000));
    assert_eq!(
        resolve_seek_target(&routes, &streams, &c),
        (0, 2_700_000, TimeBase::new(1, 90_000))
    );
}

#[test]
fn channel_caps_default_matches_internal_constants() {
    let caps = ChannelCaps::default();
    assert_eq!(caps.packets, PACKET_CAP);
    assert_eq!(caps.frames, FRAME_CAP);
    let (p, f) = caps.resolved();
    assert_eq!(p, PACKET_CAP);
    assert_eq!(f, FRAME_CAP);
    assert_eq!((PACKET_CAP, FRAME_CAP), (16, 8));
}

#[test]
fn channel_caps_zero_promoted_to_one() {
    let caps = ChannelCaps {
        packets: 0,
        frames: 0,
    };
    let (p, f) = caps.resolved();
    assert_eq!(p, 1, "packets=0 must be promoted to 1");
    assert_eq!(f, 1, "frames=0 must be promoted to 1");
}

#[test]
fn channel_caps_arbitrary_values_round_trip() {
    let caps = ChannelCaps {
        packets: 64,
        frames: 32,
    };
    let (p, f) = caps.resolved();
    assert_eq!(p, 64);
    assert_eq!(f, 32);
}

#[test]
fn queue_budget_zero_is_disabled() {
    let mut b = QueueBudget::new(0);
    assert!(!b.enabled());
    b.admit_bytes(1_000_000);
    assert_eq!(b.in_flight, 0);
    b.release(1_000_000);
    assert_eq!(b.in_flight, 0);
}

#[test]
fn queue_budget_admit_release_balance() {
    let mut b = QueueBudget::new(4096);
    assert!(b.enabled());
    b.admit_bytes(100);
    b.admit_bytes(50);
    assert_eq!(b.in_flight, 150);
    b.release(100);
    assert_eq!(b.in_flight, 50);
    b.release(50);
    assert_eq!(b.in_flight, 0);
}

#[test]
fn queue_budget_release_saturates_at_zero() {
    let mut b = QueueBudget::new(4096);
    b.admit_bytes(10);
    b.release(1_000);
    assert_eq!(b.in_flight, 0);
}

#[test]
fn queue_budget_wait_returns_when_below_ceiling() {
    let abort: AbortState<String> = AbortState::new();
    let mut b = QueueBudget::new(4096);
    b.admit_bytes(100);
    assert!(!b.wait_below_ceiling(&abort));
}

#[test]
fn queue_budget_wait_bails_on_abort() {
    let mut abort: AbortState<String> = AbortState::new();
    let mut b = QueueBudget::new(100);
    b.admit_bytes(200);
    assert!(b.wait_below_ceiling(&abort));
    abort.request_abort();
    assert!(!b.wait_below_ceiling(&abort));
}

#[test]
fn decode_stage_emits_authoritative_stream_update_before_first_frame() {
    let params = CodecParameters::new("dynamic-audio".to_string(), MediaType::Audio);
    let template = StreamInfo {
        index: 0,
        time_base: TimeBase::new(1, 90_000),
        duration: None,
        start_time: None,
        params: params.clone(),
    };
    let mut shared: Shared<String> = Shared::new(0);
    let mut stage = DecodeStage::new(0, Downstream::Channel, Some(template));

    let mut known = params;
    known.sample_rate = Some(48_000);
    known.channels = Some(2);
    known.sample_format = Some(SampleFormat::S16);

    // What the decoder answers, and what reaches the next worker.
    let mut inbox = vec![Msg::Eof, Msg::Data { bytes: 1 }];
    let mut frames = vec![90_000i64];
    let mut updates: Vec<StreamInfo> = Vec::new();
    let mut log: Vec<&str> = Vec::new();
    let mut reply: DecodeReply<i64, String> = DecodeReply::Start;
    loop {
        reply = match stage.step(&mut shared, reply) {
            DecodeCommand::Receive => DecodeReply::Received(inbox.pop().unwrap()),
            DecodeCommand::SendPacket => DecodeReply::Accepted {
                params: Some(known.clone()),
            },
            DecodeCommand::SendUpdate(stream) => {
                log.push("update");
                updates.push(stream);
                DecodeReply::Sent(Sent::Delivered)
            }
            DecodeCommand::ReceiveFrame => match frames.pop() {
                Some(f) => DecodeReply::Frame(f),
                None => DecodeReply::NeedMore,
            },
            DecodeCommand::WriteFrame(pts) => {
                assert_eq!(pts, 90_000);
                log.push("frame");
                DecodeReply::Sent(Sent::Delivered)
            }
            DecodeCommand::FlushDecoder => DecodeReply::Done,
            DecodeCommand::SendEof => {
                log.push("eof");
                DecodeReply::Done
            }
            DecodeCommand::Finished => break,
            _ => panic!("unexpected command"),
        };
    }

    assert_eq!(log, vec!["update", "frame", "eof"]);
    let update = &updates[0];
    assert_eq!(update.params.sample_rate, Some(48_000));
    assert_eq!(update.params.channels, Some(2));
    assert_eq!(update.params.sample_format, Some(SampleFormat::S16));
    assert_eq!(shared.counters.frames_decoded, 1);
}

#[test]
fn first_recorded_failure_is_kept() {
    let mut abort: AbortState<&str> = AbortState::new();
    abort.record_failure(StageFailure::new(
        FailureStage::Decode,
        Some(1),
        Cause::Raised("first"),
    ));
    abort.record_failure(StageFailure::new(
        FailureStage::Sink,
        None,
        Cause::Raised("second"),
    ));
    assert!(abort.is_aborted());
    let f = abort.take_failure().unwrap();
    assert_eq!(f.stage, FailureStage::Decode);
    assert_eq!(f.track, Some(1));
    assert!(matches!(f.error, Cause::Raised("first")));
    assert!(abort.take_failure().is_none());
    assert!(abort.is_aborted());
}

fn fault(cancelled: bool) -> Fault<&'static str> {
    Fault {
        cause: Cause::Raised("sink"),
        cancelled,
    }
}

#[test]
fn cancelled_track_sink_is_no_failure_while_stopping() {
    let mut abort: AbortState<&str> = AbortState::new();
    abort.request_abort();
    let r = record_sink_result(&mut abort, 0, Err(fault(true)));
    assert!(matches!(r, Err(f) if f.cancelled && matches!(f.cause, Cause::Raised("sink"))));
    assert!(abort.first.is_none());
}

#[test]
fn failing_track_sink_is_recorded_and_stops_the_others() {
    let mut abort: AbortState<&str> = AbortState::new();
    let r = record_sink_result(&mut abort, 3, Err(fault(false)));
    assert!(matches!(r, Err(f) if f.cancelled
        && matches!(f.cause, Cause::Own(JobError::TrackSinkFailed))));
    assert!(abort.is_aborted());
    let first = abort.take_failure().unwrap();
    assert_eq!(first.stage, FailureStage::Sink);
    assert_eq!(first.track, Some(3));
}

#[test]
fn frames_count_as_written_only_at_a_sink() {
    let mut shared: Shared<&str> = Shared::new(0);
    assert!(deliver(&mut shared, Downstream::Channel, Item::Frame, Sent::Delivered));
    assert_eq!(shared.counters.frames_written, 0);
    let own = Downstream::Independent { track: 2 };
    assert!(deliver(&mut shared, own, Item::Frame, Sent::Delivered));
    assert_eq!(shared.counters.frames_written, 1);
    assert!(!deliver(&mut shared, Downstream::Channel, Item::Frame, Sent::Closed));
    assert!(shared.abort.is_aborted());
    assert!(shared.abort.first.is_none());
}

#[test]
fn progress_reports_the_counters() {
    let counters = PipelineCounters {
        packets_read: 5,
        packets_copied: 1,
        packets_encoded: 2,
        frames_decoded: 4,
        frames_written: 3,
        packets_skipped: 1,
    };
    let mut budget = QueueBudget::new(100);
    budget.admit_bytes(40);
    let p = counters.progress(&budget, Some(9), false, 1234);
    assert_eq!(
        p,
        Progress {
            pts: Some(9),
            frames: 3,
            eof: false,
            queue_bytes: 40,
            elapsed_micros: 1234,
            packets_skipped: 1,
            packets_read: 5,
            packets_encoded: 2,
            packets_copied: 1,
        }
    );
    assert_eq!(counters.snapshot().frames_decoded, 4);
    assert_eq!(Progress::default().frames, 0);
}

#[test]
fn bad_packets_are_skipped_and_giving_up_is_fatal() {
    let mut shared: Shared<&str> = Shared::new(0);
    let mut stage = DecodeStage::new(4, Downstream::Channel, None);
    let start: DecodeReply<i64, &str> = DecodeReply::Start;
    assert!(matches!(stage.step(&mut shared, start), DecodeCommand::Receive));
    let got: DecodeReply<i64, &str> = DecodeReply::Received(Msg::Data { bytes: 10 });
    assert!(matches!(stage.step(&mut shared, got), DecodeCommand::SendPacket));
    let refused: DecodeReply<i64, &str> = DecodeReply::Fault(fault(false));
    assert!(matches!(stage.step(&mut shared, refused), DecodeCommand::Receive));
    assert_eq!(shared.counters.packets_skipped, 1);

    let got: DecodeReply<i64, &str> = DecodeReply::Received(Msg::Data { bytes: 10 });
    assert!(matches!(stage.step(&mut shared, got), DecodeCommand::SendPacket));
    let gone: DecodeReply<i64, &str> = DecodeReply::Fault(Fault {
        cause: Cause::Raised("gone"),
        cancelled: true,
    });
    match stage.step(&mut shared, gone) {
        DecodeCommand::Failed(f) => {
            assert_eq!(f.stage, FailureStage::Decode);
            assert_eq!(f.track, Some(4));
            assert!(matches!(f.error, Cause::Raised("gone")));
        }
        _ => panic!("a decoder that gave up must fail the track"),
    }
    assert_eq!(shared.counters.packets_skipped, 1);
}
