use ped::display::{GrayFrame, Rect, Scheduler, Waveform};
use ped::pipeline::{telemetry_reply, union_regions, FramePipeline, KindleAction, KindleCommand};
use ped::runtime::{RefreshStats, RuntimeFlags, State};
use std::time::Instant;

fn frame(pixels: Vec<u8>) -> GrayFrame {
    GrayFrame::new(4, 2, pixels).unwrap()
}

fn refresh(regions: Vec<Option<Rect>>, full: bool, flashing: bool, callback: u32) -> KindleCommand<u32> {
    KindleCommand::Refresh { regions, waveform: Waveform::Fast, flashing, full, callback }
}

#[test]
fn regions_are_united() {
    let regions = vec![
        Some(Rect { left: 1, top: 1, width: 1, height: 1 }),
        None,
        Some(Rect { left: 3, top: 0, width: 1, height: 1 }),
    ];
    assert_eq!(union_regions(&regions), Some(Rect { left: 1, top: 0, width: 3, height: 2 }));
    assert_eq!(union_regions(&vec![None, None]), None);
}

#[test]
fn untrusted_pages_are_refused() {
    let mut pipeline: FramePipeline<u32> = FramePipeline::new(4, 2);
    let mut scheduler = Scheduler::new(true, 1000);
    match pipeline.handle_kindle(refresh(vec![], false, false, 9), false, &mut scheduler) {
        KindleAction::Refuse { callback, error } => {
            assert_eq!(callback, 9);
            assert_eq!(error.code, "origin_not_trusted");
            assert_eq!(error.message, "page origin is not trusted for Kindle refresh");
        }
        _ => panic!("expected refusal"),
    }
    match pipeline.handle_kindle(KindleCommand::Network { callback: 1 }, false, &mut scheduler) {
        KindleAction::Refuse { error, .. } => {
            assert_eq!(error.message, "page origin is not trusted for network telemetry")
        }
        _ => panic!("expected refusal"),
    }
    match pipeline.handle_kindle(KindleCommand::Battery { callback: 1 }, false, &mut scheduler) {
        KindleAction::Refuse { error, .. } => {
            assert_eq!(error.message, "page origin is not trusted for battery telemetry")
        }
        _ => panic!("expected refusal"),
    }
    let action = pipeline.handle_kindle(
        KindleCommand::SetAutoRefresh { enabled: false, interval_ms: 5 },
        false,
        &mut scheduler,
    );
    assert!(matches!(action, KindleAction::Done));
    assert!(scheduler.enabled());
    assert_eq!(scheduler.interval_ms(), 1000);
}

#[test]
fn trusted_pacing_and_telemetry() {
    let mut pipeline: FramePipeline<u32> = FramePipeline::new(4, 2);
    let mut scheduler = Scheduler::new(true, 1000);
    pipeline.handle_kindle(
        KindleCommand::SetAutoRefresh { enabled: false, interval_ms: 0 },
        true,
        &mut scheduler,
    );
    assert!(!scheduler.enabled());
    assert_eq!(scheduler.interval_ms(), 1);
    assert!(matches!(
        pipeline.handle_kindle(KindleCommand::Battery { callback: 2 }, true, &mut scheduler),
        KindleAction::ReportBattery { callback: 2 }
    ));
    assert!(matches!(
        pipeline.handle_kindle(KindleCommand::Network { callback: 3 }, true, &mut scheduler),
        KindleAction::ReportNetwork { callback: 3 }
    ));
    let r: Result<u8, _> = telemetry_reply(Err("network telemetry unavailable".to_string()));
    let e = r.unwrap_err();
    assert_eq!((e.code, e.message.as_str()), ("unavailable", "network telemetry unavailable"));
    assert_eq!(telemetry_reply::<u8>(Ok(4)).unwrap(), 4);
}

#[test]
fn a_newer_kindle_refresh_supersedes_the_older() {
    let mut pipeline: FramePipeline<u32> = FramePipeline::new(4, 2);
    let mut scheduler = Scheduler::new(true, 1000);
    match pipeline.handle_kindle(refresh(vec![], false, false, 1), true, &mut scheduler) {
        KindleAction::RequestFrame { superseded } => assert!(superseded.is_none()),
        _ => panic!("expected a frame request"),
    }
    let region = Rect { left: 1, top: 0, width: 2, height: 1 };
    match pipeline.handle_kindle(refresh(vec![Some(region)], false, false, 2), true, &mut scheduler) {
        KindleAction::RequestFrame { superseded } => {
            let (callback, error) = superseded.unwrap();
            assert_eq!(callback, 1);
            assert_eq!(error.code, "superseded");
            assert_eq!(error.message, "a newer Kindle refresh replaced this request");
        }
        _ => panic!("expected a frame request"),
    }
    // The page's refresh takes the next frame for its own region and waveform.
    pipeline.offer_frame(frame(vec![0; 8]), &mut scheduler);
    let mut state = State::Running;
    let job = pipeline.take_commit(Waveform::Quality, &mut scheduler, &mut state).unwrap();
    assert_eq!(job.region, region);
    assert_eq!(job.waveform, Waveform::Fast);
    assert_eq!(job.callback, Some(2));
    assert_eq!(state, State::Refreshing);
}

#[test]
fn frames_wait_for_changed_regions() {
    let mut pipeline: FramePipeline<u32> = FramePipeline::new(4, 2);
    let mut scheduler = Scheduler::new(true, 1000);
    let mut stats = RefreshStats::default();
    let mut state = State::Starting;
    let now = Instant::now();
    pipeline.record_initial(frame(vec![0; 8]), now, &mut scheduler, &mut stats);
    assert_eq!(stats.successful, 1);
    assert_eq!(stats.last_region, Some((0, 0, 4, 2)));
    assert_eq!(scheduler.sequence(), 1);
    // An unchanged frame is dropped.
    pipeline.offer_frame(frame(vec![0; 8]), &mut scheduler);
    assert!(pipeline.take_commit(Waveform::Quality, &mut scheduler, &mut state).is_none());
    // A changed frame waits for its changed region.
    let mut pixels = vec![0; 8];
    pixels[6] = 9;
    pipeline.offer_frame(frame(pixels), &mut scheduler);
    let job = pipeline.take_commit(Waveform::Quality, &mut scheduler, &mut state).unwrap();
    assert_eq!(job.region, Rect { left: 2, top: 1, width: 1, height: 1 });
    assert_eq!(job.waveform, Waveform::Quality);
    assert!(!job.flashing);
    assert_eq!(job.callback, None);
    let flags = RuntimeFlags { wait_for_complete: false, periodic_full_refresh: true, full_refresh_interval: 2 };
    let follow = pipeline.finish_commit(job, Ok(()), now, &flags, &mut scheduler, &mut stats, &mut state);
    assert!(follow.reply.is_none());
    // The second refresh reaches the periodic full refresh.
    assert!(follow.request_frame);
    assert!(scheduler.full_requested());
    assert_eq!(state, State::Running);
    assert_eq!(stats.sequence, 2);
    assert_eq!(stats.last_region, Some((2, 1, 1, 1)));
    // With a full refresh requested, even an unchanged frame is committed in full.
    let mut pixels = vec![0; 8];
    pixels[6] = 9;
    pipeline.offer_frame(frame(pixels), &mut scheduler);
    let job = pipeline.take_commit(Waveform::Quality, &mut scheduler, &mut state).unwrap();
    assert_eq!(job.region, Rect::full(4, 2));
    assert!(!scheduler.full_requested());
}

#[test]
fn failed_commits_are_reported_to_the_page() {
    let mut pipeline: FramePipeline<u32> = FramePipeline::new(4, 2);
    let mut scheduler = Scheduler::new(true, 1000);
    let mut stats = RefreshStats::default();
    let mut state = State::Running;
    pipeline.handle_kindle(refresh(vec![], false, true, 5), true, &mut scheduler);
    pipeline.offer_frame(frame(vec![1; 8]), &mut scheduler);
    let job = pipeline.take_commit(Waveform::Auto, &mut scheduler, &mut state).unwrap();
    assert!(job.flashing);
    assert_eq!(job.region, Rect::full(4, 2));
    let flags = RuntimeFlags { wait_for_complete: false, periodic_full_refresh: false, full_refresh_interval: 1 };
    let follow = pipeline.finish_commit(
        job,
        Err("fbink_open failed: -1".to_string()),
        Instant::now(),
        &flags,
        &mut scheduler,
        &mut stats,
        &mut state,
    );
    let (callback, result) = follow.reply.unwrap();
    assert_eq!(callback, 5);
    let error = result.unwrap_err();
    assert_eq!((error.code, error.message.as_str()), ("commit_failed", "fbink_open failed: -1"));
    assert_eq!(stats.failed, 1);
    assert_eq!(stats.successful, 0);
    assert!(!follow.request_frame);
    assert_eq!(state, State::Running);
}
