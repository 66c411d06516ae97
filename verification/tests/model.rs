use pasteface::model::{timestamp, Phase};

#[test]
fn time_handles_minutes_and_invalid_input() {
    assert_eq!(timestamp(65.9_f64.to_bits()), "01:05");
    assert_eq!(timestamp((-1_f64).to_bits()), "00:00");
}

#[test]
fn only_active_work_is_busy() {
    assert!(Phase::Recording.busy());
    assert!(Phase::Transcribing.busy());
    assert!(!Phase::Ready.busy());
}

/// A length of time as minutes and seconds, counted in floating point.
fn expected(seconds: f64) -> String {
    let whole = seconds.max(0.) as u64;
    format!("{:02}:{:02}", whole / 60, whole % 60)
}

#[test]
fn every_length_of_time_can_be_written() {
    let mut lengths = vec![
        0.,
        -0.,
        0.999_999_999_9,
        1.,
        59.999_999,
        60.,
        3599.5,
        359_999.,
        4_503_599_627_370_495.5,
        4_503_599_627_370_496.,
        9_007_199_254_740_993.,
        9.3e18,
        1.8e19,
        18_446_744_073_709_551_616.,
        1e300,
        f64::MIN_POSITIVE,
        f64::MAX,
        f64::INFINITY,
        f64::NEG_INFINITY,
        f64::NAN,
        -f64::NAN,
        -5e-324,
        5e-324,
    ];
    // One in each power of two, and some between.
    for exponent in 0..2048_u64 {
        for fraction in [0, 1, 0x8_0000_0000_0000, 0xf_ffff_ffff_ffff, 0x1_2345_6789_abcd] {
            lengths.push(f64::from_bits(exponent << 52 | fraction));
        }
    }
    for length in lengths {
        assert_eq!(timestamp(length.to_bits()), expected(length), "{length}");
    }
}
