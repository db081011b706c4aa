use display_rtsp_streamer::capture::CaptureError;
use display_rtsp_streamer::capture::CaptureEvent;
use display_rtsp_streamer::capture::CaptureSession;
use display_rtsp_streamer::capture::CaptureSize;
use display_rtsp_streamer::capture::DisplayInfoRecord;
use display_rtsp_streamer::capture::IterationAction;
use display_rtsp_streamer::capture::LoopState;
use display_rtsp_streamer::capture::build_display_list;
use display_rtsp_streamer::capture::convert_bgra_to_bgr;
use display_rtsp_streamer::capture::frame_delay_micros;
use display_rtsp_streamer::capture::pacing_sleep_micros;
use display_rtsp_streamer::supervisor::StartupError;

#[test]
fn convert_single_pixel_drops_alpha() {
    let src = vec![10u8, 20u8, 30u8, 255u8];
    let out = convert_bgra_to_bgr(&src, 1, 1);
    assert_eq!(out, vec![10u8, 20u8, 30u8]);
}

#[test]
fn convert_exact_two_pixels() {
    let src = vec![1u8, 2, 3, 4, 5, 6, 7, 8];
    let out = convert_bgra_to_bgr(&src, 2, 1);
    assert_eq!(out, vec![1u8, 2, 3, 5, 6, 7]);
}

#[test]
fn convert_truncated_source_copies_whole_pixels_only() {
    // 2 pixels expected but only 7 bytes present: one whole pixel.
    let src = vec![1u8, 2, 3, 4, 5, 6, 7];
    let out = convert_bgra_to_bgr(&src, 2, 1);
    assert_eq!(out.len(), 3);
    assert_eq!(out, vec![1u8, 2, 3]);
    // Fewer than 4 bytes: no whole pixel at all.
    let out = convert_bgra_to_bgr(&src[..3], 2, 1);
    assert_eq!(out.len(), 0);
}

#[test]
fn convert_source_longer_than_needed_stops_at_pixel_count() {
    let src = vec![9u8; 16];
    let out = convert_bgra_to_bgr(&src, 1, 1);
    assert_eq!(out.len(), 3);
}

#[test]
fn frame_interval_from_rate() {
    assert_eq!(frame_delay_micros(10), 100_000);
    assert_eq!(frame_delay_micros(15), 66_666);
    assert_eq!(frame_delay_micros(1), 1_000_000);
}

#[test]
fn pacing_sleeps_the_remainder_of_the_budget() {
    assert_eq!(pacing_sleep_micros(30_000, 100_000), 70_000);
    assert_eq!(pacing_sleep_micros(0, 100_000), 100_000);
    assert_eq!(pacing_sleep_micros(100_000, 100_000), 0);
    // Over budget: no sleep, the loop degrades gracefully.
    assert_eq!(pacing_sleep_micros(250_000, 100_000), 0);
}

fn one_display() -> Vec<display_rtsp_streamer::capture::DisplayMetadata> {
    let sizes = vec![CaptureSize { width: 2, height: 2 }];
    let infos = vec![DisplayInfoRecord { x: 0, y: 0, width: 2, height: 2, is_primary: true }];
    build_display_list(&sizes, &infos).unwrap()
}

#[test]
fn session_start_captures_geometry_once() {
    let displays = one_display();
    let s = CaptureSession::start(&displays, 0, 10).unwrap();
    assert_eq!(s.display_index, 0);
    assert_eq!(s.width, displays[0].width);
    assert_eq!(s.height, displays[0].height);
    assert_eq!(s.frame_interval_micros, 100_000);
    assert_eq!(s.state, LoopState::Running);
}

#[test]
fn session_start_index_out_of_range() {
    let displays = one_display();
    let r = CaptureSession::start(&displays, 1, 10);
    assert!(matches!(r, Err(StartupError::DisplayIndexOutOfRange)));
}

#[test]
fn whole_frame_is_converted_and_delivered() {
    let displays = one_display();
    let mut s = CaptureSession::start(&displays, 0, 10).unwrap();
    let frame: Vec<u8> = (0u8..16u8).collect();
    match s.observe(false, CaptureEvent::Acquired(frame)) {
        IterationAction::Deliver(out) => {
            assert_eq!(out, vec![0u8, 1, 2, 4, 5, 6, 8, 9, 10, 12, 13, 14]);
        }
        _ => panic!("a whole frame must be delivered"),
    }
    assert_eq!(s.state, LoopState::Running);
}

#[test]
fn empty_frame_backs_off_and_retries() {
    let displays = one_display();
    let mut s = CaptureSession::start(&displays, 0, 10).unwrap();
    assert!(matches!(
        s.observe(false, CaptureEvent::Acquired(Vec::new())),
        IterationAction::Backoff
    ));
    assert_eq!(s.state, LoopState::Running);
}

#[test]
fn transient_failure_backs_off_and_retries() {
    let displays = one_display();
    let mut s = CaptureSession::start(&displays, 0, 10).unwrap();
    assert!(matches!(
        s.observe(false, CaptureEvent::Failed(CaptureError::Transient)),
        IterationAction::Backoff
    ));
    assert_eq!(s.state, LoopState::Running);
}

#[test]
fn fatal_failure_halts_the_loop() {
    let displays = one_display();
    let mut s = CaptureSession::start(&displays, 0, 10).unwrap();
    assert!(matches!(
        s.observe(false, CaptureEvent::Failed(CaptureError::Fatal)),
        IterationAction::Halt
    ));
    assert_eq!(s.state, LoopState::Failed);
    s.finish();
    assert_eq!(s.state, LoopState::Exited);
}

#[test]
fn shutdown_is_observed_before_the_event() {
    let displays = one_display();
    let mut s = CaptureSession::start(&displays, 0, 10).unwrap();
    let frame: Vec<u8> = (0u8..16u8).collect();
    assert!(matches!(
        s.observe(true, CaptureEvent::Acquired(frame)),
        IterationAction::Halt
    ));
    assert_eq!(s.state, LoopState::Stopping);
    s.finish();
    assert_eq!(s.state, LoopState::Exited);
}
