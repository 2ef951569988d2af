use vic::meta::{parse_probe_output, ProbeError, VideoMetadata};

fn sample() -> VideoMetadata {
    VideoMetadata {
        width: 1920,
        height: 1080,
        fps_num: 60,
        fps_den: 1,
        duration_micros: 1_246_333_333,
    }
}

#[test]
fn parses_crlf_probe_output() {
    let out = parse_probe_output(
        "width=1920,height=1080,r_frame_rate=60/1\r\nduration=1246.333333",
    );
    assert_eq!(out, Ok(sample()));
}

#[test]
fn lf_and_crlf_parse_identically() {
    let crlf = parse_probe_output(
        "width=1920,height=1080,r_frame_rate=60/1\r\nduration=1246.333333",
    );
    let lf = parse_probe_output(
        "width=1920,height=1080,r_frame_rate=60/1\nduration=1246.333333",
    );
    assert_eq!(crlf, lf);
}

#[test]
fn trailing_newline_is_trimmed() {
    let out = parse_probe_output(
        "width=640,height=480,r_frame_rate=30000/1001\nduration=2.5\n",
    );
    assert_eq!(
        out,
        Ok(VideoMetadata {
            width: 640,
            height: 480,
            fps_num: 30_000,
            fps_den: 1001,
            duration_micros: 2_500_000,
        })
    );
}

#[test]
fn later_keys_override_earlier_ones() {
    let out = parse_probe_output(
        "width=1,width=640,height=480,r_frame_rate=30/1,duration=1",
    );
    assert_eq!(out.unwrap().width, 640);
}

#[test]
fn missing_and_bad_fields_are_reported_in_order() {
    assert_eq!(
        parse_probe_output("height=480,r_frame_rate=30/1,duration=1"),
        Err(ProbeError::MissingWidth)
    );
    assert_eq!(
        parse_probe_output("width=abc,height=480,r_frame_rate=30/1,duration=1"),
        Err(ProbeError::BadWidth)
    );
    assert_eq!(
        parse_probe_output("width=0,height=480,r_frame_rate=30/1,duration=1"),
        Err(ProbeError::BadWidth)
    );
    assert_eq!(
        parse_probe_output("width=640,r_frame_rate=30/1,duration=1"),
        Err(ProbeError::MissingHeight)
    );
    assert_eq!(
        parse_probe_output("width=640,height=,r_frame_rate=30/1,duration=1"),
        Err(ProbeError::BadHeight)
    );
    assert_eq!(
        parse_probe_output("width=640,height=480,duration=1"),
        Err(ProbeError::MissingFrameRate)
    );
    assert_eq!(
        parse_probe_output("width=640,height=480,r_frame_rate=30,duration=1"),
        Err(ProbeError::BadFrameRate)
    );
    assert_eq!(
        parse_probe_output("width=640,height=480,r_frame_rate=30/0,duration=1"),
        Err(ProbeError::BadFrameRate)
    );
    assert_eq!(
        parse_probe_output("width=640,height=480,r_frame_rate=30/1"),
        Err(ProbeError::MissingDuration)
    );
    assert_eq!(
        parse_probe_output("width=640,height=480,r_frame_rate=30/1,duration=N/A"),
        Err(ProbeError::BadDuration)
    );
    assert_eq!(
        parse_probe_output("width=640,height=480,r_frame_rate=30/1,duration=0"),
        Err(ProbeError::BadDuration)
    );
}

#[test]
fn a_token_without_equals_is_malformed() {
    assert_eq!(
        parse_probe_output("width=640,garbage,height=480"),
        Err(ProbeError::MalformedPair)
    );
}

#[test]
fn fractional_duration_keeps_microseconds() {
    let out = parse_probe_output(
        "width=2,height=2,r_frame_rate=1/1,duration=0.5",
    );
    assert_eq!(out.unwrap().duration_micros, 500_000);
    let out = parse_probe_output(
        "width=2,height=2,r_frame_rate=1/1,duration=3.1415926535",
    );
    // digits beyond the sixth are dropped
    assert_eq!(out.unwrap().duration_micros, 3_141_592);
}

#[test]
fn error_messages_name_the_field() {
    assert_eq!(
        ProbeError::MissingDuration.message(),
        "probe output is missing duration"
    );
    assert_eq!(
        ProbeError::BadFrameRate.message(),
        "probe output has a bad r_frame_rate"
    );
}
