use ped::display::{
    grayscale_frame, plan_commit, rotate_to_native, GrayFrame, Orientation, Rect, Scheduler,
    Waveform, NATIVE_HEIGHT, NATIVE_WIDTH,
};
use std::time::{Duration, Instant};

#[test]
fn display_changed_region_is_the_bounding_union() {
    let old = GrayFrame::new(4, 3, vec![0; 12]).unwrap();
    let mut pixels = vec![0; 12];
    pixels[1] = 1;
    pixels[10] = 2;
    let current = GrayFrame::new(4, 3, pixels).unwrap();
    assert_eq!(
        current.changed_region(Some(&old)),
        Some(Rect {
            left: 1,
            top: 0,
            width: 2,
            height: 3
        })
    );
}

#[test]
fn display_identical_frames_do_not_need_refresh() {
    let frame = GrayFrame::new(2, 2, vec![0; 4]).unwrap();
    assert_eq!(frame.changed_region(Some(&frame)), None);
}

#[test]
fn display_scheduler_coalesces_until_due() {
    let mut scheduler = Scheduler::new(true, 1000);
    let start = Instant::now();
    // First pending refresh is due immediately (no prior commit).
    scheduler.request(false);
    assert!(scheduler.due(start));
    assert_eq!(scheduler.commit(start), 1);
    // Subsequent requests respect the interval.
    scheduler.request(false);
    assert!(!scheduler.due(start));
    assert!(scheduler.due(start + Duration::from_secs(1)));
    assert_eq!(scheduler.commit(start + Duration::from_secs(1)), 2);
    assert!(!scheduler.due(start + Duration::from_secs(1)));
}

#[test]
fn display_waveform_rejects_unknown_values() {
    assert!(Waveform::parse("bad").is_err());
}

#[test]
fn orientation_aliases_parse() {
    assert_eq!(Orientation::parse("portrait").unwrap(), Orientation::Portrait);
    assert_eq!(Orientation::parse("90").unwrap(), Orientation::Landscape);
    assert_eq!(
        Orientation::parse("landscape-ccw").unwrap(),
        Orientation::LandscapeInverted
    );
    assert!(Orientation::parse("sideways").is_err());
}

#[test]
fn landscape_logical_size_swaps_native() {
    assert_eq!(Orientation::Portrait.logical_size(), (NATIVE_WIDTH, NATIVE_HEIGHT));
    assert_eq!(Orientation::Landscape.logical_size(), (NATIVE_HEIGHT, NATIVE_WIDTH));
}

#[test]
fn rotate_landscape_maps_corners() {
    let region = Rect {
        left: 10,
        top: 20,
        width: 30,
        height: 40,
    };
    assert_eq!(
        Orientation::Landscape.transform_rect(region),
        Rect {
            left: NATIVE_WIDTH - (20 + 40),
            top: 10,
            width: 40,
            height: 30,
        }
    );
    assert_eq!(
        Orientation::LandscapeInverted.transform_rect(region),
        Rect {
            left: 20,
            top: NATIVE_HEIGHT - (10 + 30),
            width: 40,
            height: 30,
        }
    );
}

#[test]
fn rotate_portrait_identity_preserves_pixels() {
    let frame = GrayFrame::new(
        NATIVE_WIDTH,
        NATIVE_HEIGHT,
        vec![7; (NATIVE_WIDTH * NATIVE_HEIGHT) as usize],
    )
    .unwrap();
    let rotated = rotate_to_native(&frame, Orientation::Portrait).unwrap();
    assert_eq!(rotated, frame);
}

#[test]
fn rotate_landscape_moves_top_left_pixel() {
    let mut pixels = vec![0_u8; (NATIVE_HEIGHT * NATIVE_WIDTH) as usize];
    pixels[0] = 255; // logical (0,0) in landscape 1448x1072
    let frame = GrayFrame::new(NATIVE_HEIGHT, NATIVE_WIDTH, pixels).unwrap();
    let rotated = rotate_to_native(&frame, Orientation::Landscape).unwrap();
    // CW: (0,0) -> (lh-1, 0) = (NATIVE_WIDTH-1, 0)
    let idx = (0 * NATIVE_WIDTH + (NATIVE_WIDTH - 1)) as usize;
    assert_eq!(rotated.pixels[idx], 255);
    assert_eq!(rotated.width, NATIVE_WIDTH);
    assert_eq!(rotated.height, NATIVE_HEIGHT);
}

#[test]
fn rect_union_covers_both() {
    let a = Rect { left: 1, top: 2, width: 3, height: 4 };
    let b = Rect { left: 10, top: 0, width: 2, height: 2 };
    assert_eq!(a.union(b), Rect { left: 1, top: 0, width: 11, height: 6 });
    assert_eq!(a.union(b), b.union(a));
    assert_eq!(a.union(a), a);
    assert_eq!(Rect::full(5, 6), Rect { left: 0, top: 0, width: 5, height: 6 });
}

#[test]
fn orientation_parse_trims_and_ignores_case() {
    assert_eq!(Orientation::parse("  Landscape-CW \n").unwrap(), Orientation::Landscape);
    assert_eq!(Orientation::parse("180").unwrap(), Orientation::PortraitInverted);
    assert_eq!(Orientation::parse("270").unwrap(), Orientation::LandscapeInverted);
    assert_eq!(
        Orientation::parse("sideways").unwrap_err(),
        "unsupported display.orientation: sideways (expected portrait, landscape, portrait-inverted, or landscape-inverted)"
    );
}

#[test]
fn orientation_names_round_trip() {
    for o in [
        Orientation::Portrait,
        Orientation::Landscape,
        Orientation::PortraitInverted,
        Orientation::LandscapeInverted,
    ] {
        assert_eq!(Orientation::parse(o.as_str()).unwrap(), o);
    }
}

#[test]
fn full_page_maps_to_the_whole_panel() {
    for o in [
        Orientation::Portrait,
        Orientation::Landscape,
        Orientation::PortraitInverted,
        Orientation::LandscapeInverted,
    ] {
        let (w, h) = o.logical_size();
        assert_eq!(o.transform_rect(Rect::full(w, h)), Rect::full(NATIVE_WIDTH, NATIVE_HEIGHT));
    }
}

#[test]
fn portrait_inverted_flips_both_axes() {
    let region = Rect { left: 10, top: 20, width: 30, height: 40 };
    assert_eq!(
        Orientation::PortraitInverted.transform_rect(region),
        Rect { left: NATIVE_WIDTH - 40, top: NATIVE_HEIGHT - 60, width: 30, height: 40 }
    );
}

#[test]
fn waveform_names_are_exact() {
    assert_eq!(Waveform::parse("auto").unwrap(), Waveform::Auto);
    assert_eq!(Waveform::parse("fast").unwrap(), Waveform::Fast);
    assert_eq!(Waveform::parse("quality").unwrap(), Waveform::Quality);
    assert_eq!(Waveform::parse("Fast").unwrap_err(), "unsupported display waveform: Fast");
}

#[test]
fn frame_size_is_checked() {
    assert_eq!(GrayFrame::new(2, 2, vec![0; 3]).unwrap_err(), "frame has 3, expected 4");
    assert_eq!(
        GrayFrame::new(u32::MAX, 2, vec![]).unwrap_err(),
        "frame dimensions overflow"
    );
}

#[test]
fn frames_of_another_size_change_everywhere() {
    let small = GrayFrame::new(1, 1, vec![0]).unwrap();
    let frame = GrayFrame::new(2, 2, vec![0; 4]).unwrap();
    assert_eq!(frame.changed_region(Some(&small)), Some(Rect::full(2, 2)));
    assert_eq!(frame.changed_region(None), None);
}

#[test]
fn rotation_refuses_frames_of_the_wrong_size() {
    let frame = GrayFrame::new(2, 2, vec![0; 4]).unwrap();
    assert_eq!(
        rotate_to_native(&frame, Orientation::Landscape).unwrap_err(),
        "frame is 2x2, expected logical 1448x1072 for landscape"
    );
}

#[test]
fn scheduler_without_pacing_is_due_at_once() {
    let mut scheduler = Scheduler::new(false, 1000);
    let start = Instant::now();
    assert!(!scheduler.due(start));
    scheduler.request(true);
    assert!(scheduler.full_requested());
    assert_eq!(scheduler.commit(start), 1);
    scheduler.request(false);
    assert!(scheduler.due(start));
    assert!(!scheduler.full_requested());
}

#[test]
fn scheduler_full_request_persists_until_taken() {
    let mut scheduler = Scheduler::new(true, 1000);
    scheduler.request(true);
    scheduler.request(false);
    assert!(scheduler.full_requested());
    assert!(scheduler.take_full_request());
    assert!(!scheduler.full_requested());
    assert!(!scheduler.take_full_request());
}

#[test]
fn scheduler_pacing_reads_back() {
    let mut scheduler = Scheduler::new(true, 1000);
    scheduler.set_interval_ms(0);
    assert_eq!(scheduler.interval_ms(), 1);
    scheduler.set_interval_ms(250);
    assert_eq!(scheduler.interval_ms(), 250);
    scheduler.set_enabled(false);
    assert!(!scheduler.enabled());
    assert_eq!(scheduler.sequence(), 0);
}

#[test]
fn grayscale_composites_over_white() {
    // transparent black, opaque white, opaque black, opaque pure green
    let rgba = vec![0, 0, 0, 0, 255, 255, 255, 255, 0, 0, 0, 255, 0, 255, 0, 255];
    let frame = grayscale_frame(&rgba, 2, 2);
    assert_eq!(frame.pixels, vec![255, 255, 0, 149]);
}

#[test]
fn commit_plan_rotates_frame_and_region() {
    let frame = GrayFrame::new(
        NATIVE_HEIGHT,
        NATIVE_WIDTH,
        vec![0; (NATIVE_WIDTH * NATIVE_HEIGHT) as usize],
    )
    .unwrap();
    let region = Rect { left: 10, top: 20, width: 30, height: 40 };
    let plan = plan_commit(&frame, region, Orientation::Landscape, Waveform::Fast, false).unwrap();
    assert_eq!(plan.native_region, Orientation::Landscape.transform_rect(region));
    assert_eq!(plan.wfm_mode, 1);
    assert_eq!(plan.refresh_rect, (1012, 10, 40, 30));
    assert_eq!(plan.native.width, NATIVE_WIDTH);
}
