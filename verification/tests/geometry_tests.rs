use vic::meta::VideoMetadata;
use vic::program::{compute_output_geometry, scaled_input_dims};

#[test]
fn output_geometry_fits_the_narrower_limit() {
    // an 80-column terminal, width capped at 40: 38 columns of video
    let (cols, rows) = compute_output_geometry(80, 40, 640, 480);
    assert_eq!(cols, 38);
    // rows = ceil(38 * 480 / (2 * 640)) = ceil(14.25) = 15
    assert_eq!(rows, 15);

    // a narrow terminal wins over a large cap
    let (cols, _) = compute_output_geometry(20, 9999, 640, 480);
    assert_eq!(cols, 18);
}

#[test]
fn output_rows_follow_the_aspect_ratio() {
    // a square video: rows = ceil(cols / 2)
    let (cols, rows) = compute_output_geometry(42, 42, 100, 100);
    assert_eq!(cols, 40);
    assert_eq!(rows, 20);
    // a 2:1 video halves that again
    let (_, rows) = compute_output_geometry(42, 42, 200, 100);
    assert_eq!(rows, 10);
}

#[test]
fn input_dims_are_halved() {
    assert_eq!(scaled_input_dims(640, 480), (320, 240));
    assert_eq!(scaled_input_dims(641, 481), (320, 240));
    assert_eq!(scaled_input_dims(2, 2), (1, 1));
}

#[test]
fn frame_and_timestamp_conversions_are_exact() {
    let meta = VideoMetadata {
        width: 640,
        height: 480,
        fps_num: 30_000,
        fps_den: 1001,
        duration_micros: 100_000_000,
    };
    // frame 0 starts at 0
    assert_eq!(meta.micros_of_frame(0), 0);
    // one NTSC frame lasts 1001/30000 s = 33366.6 us, rounded down
    assert_eq!(meta.micros_of_frame(1), 33_366);
    // the frame under a timestamp inverts that
    assert_eq!(meta.frame_of_micros(33_366), 0);
    assert_eq!(meta.frame_of_micros(33_367), 1);
    // 15 seconds of NTSC video is 449 whole frames
    assert_eq!(meta.frames_of_secs(15), 449);
}
