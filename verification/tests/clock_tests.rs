use vic::clock::FrameClock;

#[test]
fn forty_ms_at_30fps_gives_one_frame_and_a_residual() {
    // 0.040s * 30fps = 1.2 frames: one whole frame, 0.2 frames carried
    // forward, no leap frame
    let mut clock = FrameClock::new(30, 1);
    let whole = clock.advance(40_000);
    assert_eq!(whole, 1);
    // the accumulator holds 0.2 frames' worth of micros * fps_num units
    assert_eq!(clock.acc, 200_000);
}

#[test]
fn residuals_accumulate_into_a_leap_frame() {
    // every tick leaves 0.2 frames behind; the fifth tick emits the leap
    let mut clock = FrameClock::new(30, 1);
    let mut emitted: Vec<u64> = Vec::new();
    for _ in 0..5 {
        emitted.push(clock.advance(40_000));
    }
    assert_eq!(emitted, vec![1, 1, 1, 1, 2]);
    assert_eq!(clock.acc, 0);
}

#[test]
fn long_run_rate_is_exact() {
    // over any run, emitted * unit + acc == elapsed * fps_num exactly, and
    // the accumulator stays below one frame
    let mut clock = FrameClock::new(30_000, 1_001);
    let unit: u64 = 1_001 * 1_000_000;
    let tick: u64 = 16_000;
    let mut total_frames: u64 = 0;
    let mut ticks: u64 = 0;
    for _ in 0..10_000 {
        total_frames += clock.advance(tick);
        ticks += 1;
        assert!(clock.acc < unit);
    }
    let elapsed_units = ticks as u128 * tick as u128 * 30_000u128;
    assert_eq!(
        total_frames as u128,
        elapsed_units / unit as u128
    );
    assert_eq!(clock.acc as u128, elapsed_units % unit as u128);
}

#[test]
fn zero_elapsed_emits_nothing() {
    let mut clock = FrameClock::new(60, 1);
    assert_eq!(clock.advance(0), 0);
    assert_eq!(clock.acc, 0);
}

#[test]
fn sub_frame_ticks_are_throttled() {
    // 10ms at 30fps is 0.3 frames: nothing to draw yet
    let mut clock = FrameClock::new(30, 1);
    assert_eq!(clock.advance(10_000), 0);
    assert_eq!(clock.advance(10_000), 0);
    assert_eq!(clock.advance(10_000), 0);
    // 40ms in: 1.2 frames due
    assert_eq!(clock.advance(10_000), 1);
}
