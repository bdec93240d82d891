use telemetry_stream::fixedpoint::{
    find_subslice, mean_i64, mode_i64, parse_decimal_micro, parse_i32, parse_u64, split_bytes,
    trim_bytes,
};
use telemetry_stream::sample::TelemetryData;
use telemetry_stream::window::{reduce, WindowedAggregator};

fn sample_with_acc_x(acc_x: i64) -> TelemetryData {
    let mut d = TelemetryData::default();
    d.acc_x = acc_x;
    d
}

// Capacity 3, three fast samples, then one after the interval: the emission
// averages the last three values in the window.
#[test]
fn window_capacity_three() {
    let mut agg = WindowedAggregator::new(3, 100, 0);
    assert!(agg.add(sample_with_acc_x(1_000_000), 10).is_none());
    assert!(agg.add(sample_with_acc_x(2_000_000), 20).is_none());
    assert!(agg.add(sample_with_acc_x(3_000_000), 30).is_none());
    let out = agg.add(sample_with_acc_x(4_000_000), 150).expect("interval elapsed");
    assert_eq!(out.acc_x, 3_000_000);
}

// After an emission the clock resets: the next sample within the interval
// emits nothing, and the next one past it emits again.
#[test]
fn window_clock_resets() {
    let mut agg = WindowedAggregator::new(2, 100, 0);
    let first = agg.add(sample_with_acc_x(6_000_000), 100).expect("emits");
    assert_eq!(first.acc_x, 6_000_000);
    assert!(agg.add(sample_with_acc_x(8_000_000), 150).is_none());
    let second = agg.add(sample_with_acc_x(10_000_000), 250).expect("emits again");
    assert_eq!(second.acc_x, 9_000_000);
}

// Mode reduction: most frequent wins; a tie selects the lower value.
#[test]
fn mode_reduction() {
    assert_eq!(mode_i64(&vec![5, 5, 7]), 5);
    assert_eq!(mode_i64(&vec![5, 7]), 5);
    assert_eq!(mode_i64(&vec![7, 5]), 5);
    assert_eq!(mode_i64(&vec![9, 3, 9, 3, 9]), 9);
    assert_eq!(mode_i64(&vec![-2, -2, -1]), -2);
}

// The mean truncates toward zero, for both signs.
#[test]
fn mean_truncates_toward_zero() {
    assert_eq!(mean_i64(&vec![2_000_000, 3_000_000, 4_000_000]), 3_000_000);
    assert_eq!(mean_i64(&vec![1, 2]), 1);
    assert_eq!(mean_i64(&vec![-1, -2]), -1);
    assert_eq!(mean_i64(&vec![1, -2]), 0);
    assert_eq!(mean_i64(&vec![i64::MAX, i64::MAX]), i64::MAX);
    assert_eq!(mean_i64(&vec![i64::MIN]), i64::MIN);
}

// The reduction takes discrete channels by mode and the timestamp and ISO
// text from the newest sample.
#[test]
fn reduce_discrete_and_newest() {
    let mut a = TelemetryData::default();
    a.timestamp = 1000;
    a.satellites = 5;
    a.rssi = -40;
    a.iso_time = b"A".to_vec();
    let mut b = TelemetryData::default();
    b.timestamp = 2000;
    b.satellites = 5;
    b.rssi = -41;
    b.iso_time = b"B".to_vec();
    let mut c = TelemetryData::default();
    c.timestamp = 3000;
    c.satellites = 7;
    c.rssi = -41;
    c.iso_time = b"C".to_vec();
    let window = vec![a, b, c];
    let out = reduce(&window);
    assert_eq!(out.satellites, 5);
    assert_eq!(out.rssi, -41);
    assert_eq!(out.timestamp, 3000);
    assert_eq!(out.iso_time, b"C".to_vec());
}

// The decimal reader: signs, bare and fractional forms, truncation past
// six places, and the rejects.
#[test]
fn decimal_parsing() {
    assert_eq!(parse_decimal_micro(b"-8.40"), Some(-8_400_000));
    assert_eq!(parse_decimal_micro(b"+5"), Some(5_000_000));
    assert_eq!(parse_decimal_micro(b"5."), Some(5_000_000));
    assert_eq!(parse_decimal_micro(b".5"), Some(500_000));
    assert_eq!(parse_decimal_micro(b"0.1234567"), Some(123_456));
    assert_eq!(parse_decimal_micro(b"37.784698"), Some(37_784_698));
    assert_eq!(parse_decimal_micro(b""), None);
    assert_eq!(parse_decimal_micro(b"."), None);
    assert_eq!(parse_decimal_micro(b"1e5"), None);
    assert_eq!(parse_decimal_micro(b"1.2.3"), None);
    assert_eq!(parse_decimal_micro(b"1000000000000"), Some(1_000_000_000_000_000_000));
    assert_eq!(parse_decimal_micro(b"10000000000000"), None);
}

// The integer readers at their bounds.
#[test]
fn integer_parsing() {
    assert_eq!(parse_u64(b"18446744073709551615"), Some(u64::MAX));
    assert_eq!(parse_u64(b"18446744073709551616"), None);
    assert_eq!(parse_u64(b"007"), Some(7));
    assert_eq!(parse_u64(b""), None);
    assert_eq!(parse_i32(b"-2147483648"), Some(i32::MIN));
    assert_eq!(parse_i32(b"2147483647"), Some(i32::MAX));
    assert_eq!(parse_i32(b"2147483648"), None);
    assert_eq!(parse_i32(b"+60"), Some(60));
    assert_eq!(parse_i32(b"-"), None);
}

// The byte helpers behind the grammar.
#[test]
fn text_helpers() {
    assert_eq!(trim_bytes(b"  x \x0d\x0a"), b"x");
    let parts = split_bytes(b"a,,b", b',');
    assert_eq!(parts.len(), 3);
    assert_eq!(parts[0], b"a".to_vec());
    assert_eq!(parts[1], b"".to_vec());
    assert_eq!(parts[2], b"b".to_vec());
    assert_eq!(find_subslice(b"xx],rssi:9", b"],rssi:"), Some(2));
    assert_eq!(find_subslice(b"xx", b"],rssi:"), None);
}
