use insta_fun::abnormal::{classify, AbnormalSample};
use insta_fun::util::{format_decimal, num_x_labels, parse_hex_color, time_formatter, Rgb};

#[test]
fn classify_matches_float_semantics() {
    assert_eq!(classify(f32::NAN.to_bits()), Some(AbnormalSample::Nan));
    assert_eq!(classify(f32::NEG_INFINITY.to_bits()), Some(AbnormalSample::NegInf));
    assert_eq!(classify(f32::INFINITY.to_bits()), Some(AbnormalSample::PosInf));
    assert_eq!(classify(0f32.to_bits()), None);
    assert_eq!(classify((-0f32).to_bits()), None);
    assert_eq!(classify(1.5f32.to_bits()), None);
    assert_eq!(classify(f32::MAX.to_bits()), None);
    assert_eq!(classify(f32::MIN_POSITIVE.to_bits()), None);
    // A NaN with a different payload is still a NaN.
    let payload_nan = f32::from_bits(0x7FC0_1234);
    assert!(payload_nan.is_nan());
    assert_eq!(classify(payload_nan.to_bits()), Some(AbnormalSample::Nan));
}

#[test]
fn abnormal_labels() {
    assert_eq!(AbnormalSample::Nan.label(), "NaN");
    assert_eq!(AbnormalSample::NegInf.label(), "-inf");
    assert_eq!(AbnormalSample::PosInf.label(), "+inf");
}

#[test]
fn decimal_formatting() {
    assert_eq!(format_decimal(0), "0");
    assert_eq!(format_decimal(7), "7");
    assert_eq!(format_decimal(10), "10");
    assert_eq!(format_decimal(44100), "44100");
    assert_eq!(format_decimal(18_446_744_073_709_551_615), "18446744073709551615");
}

#[test]
fn hex_color_parsing() {
    assert_eq!(parse_hex_color("#FF6B6B"), Rgb { r: 255, g: 107, b: 107 });
    assert_eq!(parse_hex_color("#000000"), Rgb { r: 0, g: 0, b: 0 });
    assert_eq!(parse_hex_color("4285F4"), Rgb { r: 0x42, g: 0x85, b: 0xF4 });
    assert_eq!(parse_hex_color("##2c3e50"), Rgb { r: 0x2C, g: 0x3E, b: 0x50 });
    // Malformed or missing pairs read as zero.
    assert_eq!(parse_hex_color("#ZZ11"), Rgb { r: 0, g: 0x11, b: 0 });
    assert_eq!(parse_hex_color(""), Rgb { r: 0, g: 0, b: 0 });
}

#[test]
fn time_labels() {
    assert_eq!(time_formatter(0, 0), "0");
    assert_eq!(time_formatter(0, 44_100), "0s");
    assert_eq!(time_formatter(44_100, 44_100), "1s");
    assert_eq!(time_formatter(22_050, 44_100), "0.5s");
    assert_eq!(time_formatter(66_150, 44_100), "1.5s");
    // 90 seconds becomes minutes and seconds.
    assert_eq!(time_formatter(44_100 * 90, 44_100), "1m 30s");
    // 3700 samples at 1 Hz are an hour, a minute and 40 seconds.
    assert_eq!(time_formatter(3_700, 1), "1h 1m 40s");
    // Sub-microsecond rounding: one sample at 44.1 kHz is about 23 us.
    assert_eq!(time_formatter(1, 44_100), "0.000023s");
}

#[test]
fn x_label_counts() {
    assert_eq!(num_x_labels(0, 44_100), 2);
    assert_eq!(num_x_labels(1024, 0), 2);
    // 30000 samples at 44.1 kHz: about 680 ms, nice step 100 ms, 7 labels.
    assert_eq!(num_x_labels(30_000, 44_100), 7);
    // One second at 44.1 kHz: nice step 200 ms, 6 labels.
    assert_eq!(num_x_labels(44_100, 44_100), 6);
    // One sample at 44.1 kHz: about 23 us, nice step 5 us, 5 labels.
    assert_eq!(num_x_labels(1, 44_100), 5);
}
