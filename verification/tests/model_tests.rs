use vic::meta::VideoMetadata;
use vic::model::{FrameRequest, HoverMode, InputEvent, Model};
use vic::program::UpdateResult;

fn test_meta() -> VideoMetadata {
    VideoMetadata {
        width: 640,
        height: 480,
        fps_num: 30,
        fps_den: 1,
        duration_micros: 100_000_000,
    }
}

fn test_model() -> Model {
    Model::init(test_meta(), String::from("/tmp/clip.mp4"), 80, 24, 40, 12, false)
}

#[test]
fn initial_state_is_playing_segment_zero() {
    let m = test_model();
    assert!(!m.paused);
    assert!(matches!(m.hovering.mode, HoverMode::Segments));
    assert_eq!(m.hovering.position, 0);
    assert_eq!(m.frame_number, 0);
}

#[test]
fn create_marker_is_a_noop_in_markers_mode() {
    let mut m = test_model();
    m.create_marker();
    assert_eq!(m.markers.len(), 1);
    // after marking, the hovered segment is the one starting at the new
    // marker, so the previous marker is the new one: enter Markers mode
    m.goto_prev_marker();
    assert!(matches!(m.hovering.mode, HoverMode::Markers));
    let before_len = m.markers.len();
    let before_hover = m.hovering;
    let req = m.create_marker();
    assert_eq!(m.markers.len(), before_len);
    assert_eq!(m.hovering, before_hover);
    assert!(matches!(req, FrameRequest::Idle));
}

#[test]
fn delete_marker_is_a_noop_in_segments_mode() {
    let mut m = test_model();
    m.create_marker();
    assert!(matches!(m.hovering.mode, HoverMode::Segments));
    let before_len = m.markers.len();
    let req = m.delete_marker();
    assert_eq!(m.markers.len(), before_len);
    assert!(matches!(req, FrameRequest::Idle));
}

#[test]
fn delete_marker_removes_the_hovered_marker() {
    let mut m = test_model();
    m.create_marker();
    m.goto_prev_marker();
    assert!(matches!(m.hovering.mode, HoverMode::Markers));
    m.delete_marker();
    assert_eq!(m.markers.len(), 0);
    assert!(matches!(m.hovering.mode, HoverMode::Segments));
}

#[test]
fn skip_to_half_of_a_100s_30fps_video() {
    let mut m = test_model();
    let req = m.skip_to_percent(50);
    assert_eq!(m.frame_number, 1500);
    match req {
        FrameRequest::Seek { micros, skip } => {
            assert_eq!(micros, 50_000_000);
            assert_eq!(skip, 0);
        },
        _ => panic!("expected a seek"),
    }
}

#[test]
fn seek_backwards_clamps_at_the_start() {
    let mut m = test_model();
    let req = m.seek_backwards_15s();
    assert_eq!(m.frame_number, 0);
    assert!(matches!(req, FrameRequest::Seek { micros: 0, skip: 0 }));
}

#[test]
fn seek_forwards_moves_by_15_seconds_of_frames() {
    let mut m = test_model();
    m.seek_forwards_15s();
    assert_eq!(m.frame_number, 450);
    m.seek_forwards_15s();
    assert_eq!(m.frame_number, 900);
}

#[test]
fn seeking_resyncs_the_hovered_segment() {
    let mut m = test_model();
    m.skip_to_percent(20);
    m.create_marker(); // marker at 20s
    m.skip_to_percent(60);
    m.create_marker(); // marker at 60s
    m.skip_to_percent(0);
    assert_eq!(m.hovering.position, 0);
    m.skip_to_percent(40);
    assert_eq!(m.hovering.position, 1);
    m.skip_to_percent(80);
    assert_eq!(m.hovering.position, 2);
    // the incremental resync agrees with a full rescan
    let ts = m.playhead_micros();
    assert_eq!(
        m.hovering.position,
        m.markers.segment_index_scan(ts)
    );
}

#[test]
fn advance_one_frame_needs_pause() {
    let mut m = test_model();
    let req = m.advance_one_frame();
    assert_eq!(m.frame_number, 0);
    assert!(matches!(req, FrameRequest::Idle));
    m.toggle_paused();
    let req = m.advance_one_frame();
    assert_eq!(m.frame_number, 1);
    assert!(matches!(req, FrameRequest::Advance { skip: 0 }));
}

#[test]
fn unpausing_returns_to_segments_mode() {
    let mut m = test_model();
    m.create_marker();
    m.goto_prev_marker(); // Markers mode, paused
    assert!(m.paused);
    assert!(matches!(m.hovering.mode, HoverMode::Markers));
    m.toggle_paused();
    assert!(!m.paused);
    assert!(matches!(m.hovering.mode, HoverMode::Segments));
}

#[test]
fn marker_navigation_stops_at_the_ends() {
    let mut m = test_model();
    let req = m.goto_prev_marker();
    assert!(matches!(req, FrameRequest::Idle));
    let req = m.goto_next_marker();
    assert!(matches!(req, FrameRequest::Idle));
    m.skip_to_percent(10);
    m.create_marker();
    // hovering the segment to the right of the only marker: there is no
    // next marker from here
    assert_eq!(m.hovering.position, 1);
    let req = m.goto_next_marker();
    assert!(matches!(req, FrameRequest::Idle));
    // the previous marker is the new one
    m.goto_prev_marker();
    assert!(matches!(m.hovering.mode, HoverMode::Markers));
    assert_eq!(m.hovering.position, 0);
    // and from its left edge there is nothing further back
    let req = m.goto_prev_marker();
    assert!(matches!(req, FrameRequest::Idle));
    assert_eq!(m.hovering.position, 0);
}

#[test]
fn quit_key_finishes_the_loop() {
    let mut m = test_model();
    let (verdict, req1, req2) = m.update(InputEvent::Key('q'), 16_000);
    assert!(matches!(verdict, UpdateResult::Finish));
    assert!(matches!(req1, FrameRequest::Idle));
    assert!(matches!(req2, FrameRequest::Idle));
}

#[test]
fn ticks_advance_playback_through_update() {
    let mut m = test_model();
    // 40ms at 30fps: one frame due; the tick request skips none
    let (verdict, req1, req2) = m.update(InputEvent::Tick, 40_000);
    assert!(matches!(verdict, UpdateResult::Continue));
    assert!(matches!(req1, FrameRequest::Idle));
    assert!(matches!(req2, FrameRequest::Advance { skip: 0 }));
    assert_eq!(m.frame_number, 1);
    // 10ms more: 0.5 frames accumulated, nothing due
    let (_, _, req2) = m.update(InputEvent::Tick, 10_000);
    assert!(matches!(req2, FrameRequest::Idle));
    assert_eq!(m.frame_number, 1);
}

#[test]
fn paused_ticks_do_nothing() {
    let mut m = test_model();
    m.update(InputEvent::Key(' '), 16_000);
    assert!(m.paused);
    let (_, _, req2) = m.update(InputEvent::Tick, 1_000_000);
    assert!(matches!(req2, FrameRequest::Idle));
    assert_eq!(m.frame_number, 0);
}

#[test]
fn resize_updates_dimensions_and_clears() {
    let mut m = test_model();
    m.update(InputEvent::Resize(100, 50), 0);
    assert_eq!(m.terminal_cols, 100);
    assert_eq!(m.terminal_rows, 50);
    assert!(m.needs_to_clear);
    m.update(InputEvent::Tick, 0);
    assert!(!m.needs_to_clear);
}

#[test]
fn markers_clamp_to_the_video_end() {
    let mut m = test_model();
    // seek far past the end, then mark: the marker sits at the duration
    for _ in 0..10 {
        m.seek_forwards_15s();
    }
    assert!(m.frame_number > 3000);
    m.create_marker();
    assert_eq!(m.markers.get(0), 100_000_000);
}
