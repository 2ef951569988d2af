use vic::meta::VideoMetadata;
use vic::model::Model;
use vic::view::{format_secs_to_mm_ss, view};

fn test_meta() -> VideoMetadata {
    VideoMetadata {
        width: 640,
        height: 480,
        fps_num: 30,
        fps_den: 1,
        duration_micros: 60_000_000,
    }
}

fn test_model() -> Model {
    Model::init(test_meta(), String::from("/tmp/clip.mp4"), 80, 24, 14, 2, false)
}

#[test]
fn minutes_and_seconds_format() {
    assert_eq!(format_secs_to_mm_ss(0), "0:00");
    assert_eq!(format_secs_to_mm_ss(9_000_000), "0:09");
    assert_eq!(format_secs_to_mm_ss(75_000_000), "1:15");
    assert_eq!(format_secs_to_mm_ss(3_601_000_000), "60:01");
    // sub-second time rounds down
    assert_eq!(format_secs_to_mm_ss(999_999), "0:00");
}

#[test]
fn the_screen_shows_time_and_status() {
    let m = test_model();
    let screen = view(&m);
    // playhead and duration
    assert!(screen.contains("0:00 / 1:00"));
    // playing indicator
    assert!(screen.contains(" >>"));
    // hovering the only segment
    assert!(screen.contains("segment 1 of 1"));
    // no markers: plain quit line
    assert!(screen.contains("     q = quit                          "));
    // no rate known yet
    assert!(screen.contains(" fps:   "));
}

#[test]
fn the_bar_has_box_corners_and_a_playhead() {
    let m = test_model();
    let screen = view(&m);
    // at frame 0 the playhead overlays the top-left corner
    assert!(screen.contains("v──────────────┐"));
    assert!(screen.contains("└──────────────┘"));
}

#[test]
fn markers_tick_the_bar_and_change_the_quit_line() {
    let mut m = test_model();
    m.skip_to_percent(50);
    m.create_marker();
    let screen = view(&m);
    // 14 columns, marker at half time: tick at bar column 7, where the
    // playhead also sits, so the playhead wins on the top row
    assert!(screen.contains("┌──────v───────┐"));
    assert!(screen.contains("└──────┴───────┘"));
    assert!(screen.contains("     q = quit and cut into 2 segments"));
    assert!(screen.contains("segment 2 of 2"));
    // paused later: a marker tick shows without the playhead over it
    m.skip_to_percent(0);
    let screen = view(&m);
    assert!(screen.contains("v──────┬───────┐"));
}

#[test]
fn pausing_changes_the_indicator_and_help() {
    let mut m = test_model();
    m.toggle_paused();
    let screen = view(&m);
    assert!(screen.contains(" ||"));
    assert!(screen.contains(" space = unpause"));
    assert!(!screen.contains(" space = pause  "));
}

#[test]
fn hidden_controls_drop_the_help_block() {
    let mut m = test_model();
    m.toggle_controls_visibility();
    let screen = view(&m);
    assert!(!screen.contains("segment 1 of 1"));
    assert!(!screen.contains("J/L = prev/next marker"));
    // the toggle forces a full clear
    assert!(screen.starts_with("\u{1b}[2J"));
}

#[test]
fn blank_rows_fill_in_before_the_first_frame() {
    let m = test_model();
    let screen = view(&m);
    // two output rows, no frame yet: the block starts with the cursor
    // home, a blank indented first row carrying the rate overlay, then a
    // blank second row
    assert!(screen.contains("\u{1b}[1;1H \u{1b}[8D fps:   \r\n \r\n"));
}
