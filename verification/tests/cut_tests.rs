use vic::cuts::{
    cut_command_args, cut_output_path, format_micros_secs, plan_cut_commands, plan_segments,
    render_cut_report, shell_quote,
};
use vic::markers::MarkerIndex;

#[test]
fn quitting_with_zero_markers_cuts_nothing() {
    let idx = MarkerIndex::new();
    let segments = plan_segments(&idx, 30_000_000);
    assert_eq!(segments.len(), 0);
    let commands = plan_cut_commands(&idx, 30_000_000, "/tmp/clip.mp4");
    assert_eq!(commands.len(), 0);
    let report = render_cut_report(&idx, 30_000_000, "/tmp/clip.mp4");
    assert_eq!(report, "");
}

#[test]
fn one_marker_on_a_30s_video_cuts_two_segments() {
    let mut idx = MarkerIndex::new();
    idx.insert(10_000_000); // t = 10s
    let segments = plan_segments(&idx, 30_000_000);
    assert_eq!(segments, vec![(0, 10_000_000), (10_000_000, 30_000_000)]);
    let commands = plan_cut_commands(&idx, 30_000_000, "/tmp/clip.mp4");
    assert_eq!(commands.len(), 2);
    assert_eq!(
        commands[0],
        vec![
            "-ss", "0.000000", "-i", "/tmp/clip.mp4", "-to", "10.000000", "-c", "copy",
            "/tmp/clip_0.mp4",
        ]
    );
    assert_eq!(
        commands[1],
        vec![
            "-ss", "10.000000", "-i", "/tmp/clip.mp4", "-to", "30.000000", "-c", "copy",
            "/tmp/clip_1.mp4",
        ]
    );
}

#[test]
fn segments_chain_from_zero_to_the_duration() {
    let mut idx = MarkerIndex::new();
    idx.insert(4_000_000);
    idx.insert(2_000_000);
    idx.insert(9_000_000);
    let segments = plan_segments(&idx, 12_000_000);
    assert_eq!(
        segments,
        vec![
            (0, 2_000_000),
            (2_000_000, 4_000_000),
            (4_000_000, 9_000_000),
            (9_000_000, 12_000_000),
        ]
    );
}

#[test]
fn timestamps_render_with_six_fractional_digits() {
    assert_eq!(format_micros_secs(0), "0.000000");
    assert_eq!(format_micros_secs(10_000_000), "10.000000");
    assert_eq!(format_micros_secs(1_246_333_333), "1246.333333");
    assert_eq!(format_micros_secs(42), "0.000042");
}

#[test]
fn output_paths_wedge_the_index_before_the_extension() {
    assert_eq!(cut_output_path("/a/b/c.mp4", 0), "/a/b/c_0.mp4");
    assert_eq!(cut_output_path("/a/b/c.mp4", 2), "/a/b/c_2.mp4");
    assert_eq!(cut_output_path("clip.tar.gz", 7), "clip.tar_7.gz");
}

#[test]
fn shell_quoting_wraps_and_escapes() {
    assert_eq!(shell_quote("/tmp/clip.mp4"), "'/tmp/clip.mp4'");
    assert_eq!(shell_quote("odd name.mp4"), "'odd name.mp4'");
    assert_eq!(shell_quote("it's.mp4"), "'it'\\''s.mp4'");
}

#[test]
fn the_report_quotes_path_arguments() {
    let mut idx = MarkerIndex::new();
    idx.insert(10_000_000);
    let report = render_cut_report(&idx, 30_000_000, "/tmp/my clip.mp4");
    let lines: Vec<&str> = report.lines().collect();
    assert_eq!(lines.len(), 2);
    assert_eq!(
        lines[0],
        "ffmpeg -ss 0.000000 -i '/tmp/my clip.mp4' -to 10.000000 -c copy '/tmp/my clip_0.mp4'"
    );
    assert_eq!(
        lines[1],
        "ffmpeg -ss 10.000000 -i '/tmp/my clip.mp4' -to 30.000000 -c copy '/tmp/my clip_1.mp4'"
    );
}

#[test]
fn cut_args_take_the_segment_bounds() {
    let args = cut_command_args("/v/x.avi", 1_500_000, 2_750_000, 3);
    assert_eq!(
        args,
        vec!["-ss", "1.500000", "-i", "/v/x.avi", "-to", "2.750000", "-c", "copy", "/v/x_3.avi"]
    );
}
