use telemetry_stream::clock::{parse_telemetry_data, TelemetryError};
use telemetry_stream::decode::{
    decode_frame, parse_telemetry, parse_telemetry_inline, parse_timestamped_csv, Variant,
};
use telemetry_stream::sample::{convert_to_packet, TelemetryData};

// The key-value decoder fills every recognized channel from the message and
// takes the radio metadata from its correlated arguments.
#[test]
fn test_parse_telemetry_combined() {
    let cases: Vec<(&[u8], i32, i64, TelemetryData)> = vec![
        (
            b"[timestamp:1832944,acc_x:-8.40,acc_y:1.50,acc_z:6.10,gyro_x:-19.30,gyro_y:91.70,gyro_z:1.60,mag_x:5.20,mag_y:-21.70,mag_z:34.30,baro_press:966.23,press:993.64,gps_lat:37.784698,gps_lon:-122.409698,temp:22.80]",
            -60,
            10_000_000,
            {
                let mut d = TelemetryData::default();
                d.timestamp = 1832944;
                d.acc_x = -8_400_000;
                d.acc_y = 1_500_000;
                d.acc_z = 6_100_000;
                d.gyro_x = -19_300_000;
                d.gyro_y = 91_700_000;
                d.gyro_z = 1_600_000;
                d.mag_x = 5_200_000;
                d.mag_y = -21_700_000;
                d.mag_z = 34_300_000;
                d.baro_press = 966_230_000;
                d.press = 993_640_000;
                d.gps_lat = 37_784_698;
                d.gps_lon = -122_409_698;
                d.temp = 22_800_000;
                d.rssi = -60;
                d.snr = 10_000_000;
                d
            },
        ),
        (
            b"[timestamp:987654,acc_x:1.23,acc_y:2.34,acc_z:3.45,gyro_x:4.56,gyro_y:5.67,gyro_z:6.78,mag_x:7.89,mag_y:8.90,mag_z:9.01,baro_press:1011.12,press:1112.13,gps_lat:13.14,gps_lon:14.15,temp:15.16]",
            -50,
            12_000_000,
            {
                let mut d = TelemetryData::default();
                d.timestamp = 987654;
                d.acc_x = 1_230_000;
                d.acc_y = 2_340_000;
                d.acc_z = 3_450_000;
                d.gyro_x = 4_560_000;
                d.gyro_y = 5_670_000;
                d.gyro_z = 6_780_000;
                d.mag_x = 7_890_000;
                d.mag_y = 8_900_000;
                d.mag_z = 9_010_000;
                d.baro_press = 1_011_120_000;
                d.press = 1_112_130_000;
                d.gps_lat = 13_140_000;
                d.gps_lon = 14_150_000;
                d.temp = 15_160_000;
                d.rssi = -50;
                d.snr = 12_000_000;
                d
            },
        ),
    ];

    for (message, rssi, snr, expected) in cases {
        let parsed = parse_telemetry(message, rssi, snr).expect("Failed to parse telemetry message");
        assert_eq!(parsed.timestamp, expected.timestamp);
        assert_eq!(parsed.acc_x, expected.acc_x);
        assert_eq!(parsed.acc_y, expected.acc_y);
        assert_eq!(parsed.acc_z, expected.acc_z);
        assert_eq!(parsed.gyro_x, expected.gyro_x);
        assert_eq!(parsed.gyro_y, expected.gyro_y);
        assert_eq!(parsed.gyro_z, expected.gyro_z);
        assert_eq!(parsed.mag_x, expected.mag_x);
        assert_eq!(parsed.mag_y, expected.mag_y);
        assert_eq!(parsed.mag_z, expected.mag_z);
        assert_eq!(parsed.baro_press, expected.baro_press);
        assert_eq!(parsed.press, expected.press);
        assert_eq!(parsed.gps_lat, expected.gps_lat);
        assert_eq!(parsed.gps_lon, expected.gps_lon);
        assert_eq!(parsed.temp, expected.temp);
        assert_eq!(parsed.rssi, expected.rssi);
        assert_eq!(parsed.snr, expected.snr);
    }
}

// The consumer projection: gyro doubles as velocity and orientation,
// battery reads full, the mission time is whole seconds as text.
#[test]
fn test_convert_to_packet() {
    let mut data = TelemetryData::default();
    data.timestamp = 123456;
    data.acc_x = 1_000_000;
    data.acc_y = 2_000_000;
    data.acc_z = 3_000_000;
    data.gyro_x = 4_000_000;
    data.gyro_y = 5_000_000;
    data.gyro_z = 6_000_000;
    data.mag_x = 7_000_000;
    data.mag_y = 8_000_000;
    data.mag_z = 9_000_000;
    data.baro_press = 10_000_000;
    data.press = 11_000_000;
    data.gps_lat = 12_000_000;
    data.gps_lon = 13_000_000;
    data.temp = 14_000_000;
    data.rssi = -60;
    data.snr = 10_000_000;

    let packet_id = 1;
    let packet = convert_to_packet(&data, packet_id);

    assert_eq!(packet.id, packet_id);
    assert_eq!(packet.mission_time, b"123".to_vec());
    assert_eq!(packet.connected, true);
    assert_eq!(packet.satellites, 0);
    assert_eq!(packet.rssi, -60);
    assert_eq!(packet.battery, 100_000_000);
    assert_eq!(packet.latitude, 12_000_000);
    assert_eq!(packet.longitude, 13_000_000);
    assert_eq!(packet.altitude, 0);
    assert_eq!(packet.velocity_x, 4_000_000);
    assert_eq!(packet.velocity_y, 5_000_000);
    assert_eq!(packet.velocity_z, 6_000_000);
    assert_eq!(packet.acceleration_x, 1_000_000);
    assert_eq!(packet.acceleration_y, 2_000_000);
    assert_eq!(packet.acceleration_z, 3_000_000);
    assert_eq!(packet.pitch, 4_000_000);
    assert_eq!(packet.yaw, 5_000_000);
    assert_eq!(packet.roll, 6_000_000);
    assert_eq!(packet.minute, 2);
    assert_eq!(packet.second, 3);
}

// A well-formed timestamped-CSV frame decodes exactly, and the timestamp is
// rebuilt by pure string substitution.
#[test]
fn timestamped_csv_well_formed() {
    let frame: &[u8] = b"[2024/12/22 (Sunday) 15:34:09] -8.40,1.50,6.10,-19.30,91.70,1.60,5.20,-21.70,34.30,966.23,993.64,120.5,45.2,37.784698,-122.409698,22.80,7,-61";
    let d = parse_timestamped_csv(frame).expect("frame should decode");
    assert_eq!(d.iso_time, b"2024-12-22T15:34:09Z".to_vec());
    assert_eq!(d.timestamp, ((15 * 3600 + 34 * 60 + 9) * 1000) as u64);
    assert_eq!(d.acc_x, -8_400_000);
    assert_eq!(d.acc_y, 1_500_000);
    assert_eq!(d.acc_z, 6_100_000);
    assert_eq!(d.gyro_x, -19_300_000);
    assert_eq!(d.gyro_y, 91_700_000);
    assert_eq!(d.gyro_z, 1_600_000);
    assert_eq!(d.mag_x, 5_200_000);
    assert_eq!(d.mag_y, -21_700_000);
    assert_eq!(d.mag_z, 34_300_000);
    assert_eq!(d.baro_press, 966_230_000);
    assert_eq!(d.press, 993_640_000);
    assert_eq!(d.altitude, 120_500_000);
    assert_eq!(d.humidity, 45_200_000);
    assert_eq!(d.gps_lat, 37_784_698);
    assert_eq!(d.gps_lon, -122_409_698);
    assert_eq!(d.temp, 22_800_000);
    assert_eq!(d.satellites, 7);
    assert_eq!(d.rssi, -61);
    assert_eq!(d.snr, 0);
}

// Seventeen fields instead of eighteen yield no sample.
#[test]
fn timestamped_csv_too_few_fields() {
    let frame: &[u8] = b"[2024/12/22 (Sunday) 15:34:09] 1,2,3,4,5,6,7,8,9,10,11,12,13,14,15,16,17";
    assert!(parse_timestamped_csv(frame).is_none());
}

// One unparsable field rejects the whole strict frame.
#[test]
fn timestamped_csv_bad_field() {
    let frame: &[u8] = b"[2024/12/22 (Sunday) 15:34:09] 1,2,three,4,5,6,7,8,9,10,11,12,13,14,15,16,17,18";
    assert!(parse_timestamped_csv(frame).is_none());
}

// The inline variant takes its signal strength from the frame suffix, and
// falls back to the sentinel when the suffix is missing or unparsable.
#[test]
fn inline_rssi_suffix() {
    let d = parse_telemetry_inline(b"[timestamp:9000,temp:1.5],rssi:-42").expect("decodes");
    assert_eq!(d.rssi, -42);
    assert_eq!(d.temp, 1_500_000);
    assert_eq!(d.snr, 0);

    let d2 = parse_telemetry_inline(b"[timestamp:9000,temp:1.5]").expect("decodes");
    assert_eq!(d2.rssi, -100);

    let d3 = parse_telemetry_inline(b"[timestamp:9000],rssi:").expect("decodes");
    assert_eq!(d3.rssi, -100);

    let d4 = parse_telemetry_inline(b"[timestamp:9000],rssi:abc").expect("decodes");
    assert_eq!(d4.rssi, -100);
}

// A frame that does not open with a bracket is rejected; unknown keys are
// ignored and missing keys keep their zero defaults.
#[test]
fn key_value_tolerance() {
    assert!(parse_telemetry(b"timestamp:5", -1, 0).is_none());
    let d = parse_telemetry(b"[mystery:7,temp:3.25]", -1, 2).expect("decodes");
    assert_eq!(d.temp, 3_250_000);
    assert_eq!(d.acc_x, 0);
    assert_eq!(d.rssi, -1);
    assert_eq!(d.snr, 2);
}

// The strict-CSV variant under correlated metadata takes both channels from
// the correlator.
#[test]
fn decode_frame_overrides_metadata() {
    let frame: &[u8] = b"[2024/01/02 (Tuesday) 01:02:03] 1,2,3,4,5,6,7,8,9,10,11,12,13,14,15,16,5,-10";
    let d = decode_frame(Variant::TimestampedCsv, frame, -77, 5_500_000).expect("decodes");
    assert_eq!(d.rssi, -77);
    assert_eq!(d.snr, 5_500_000);
}

// The lenient wall-clock CSV record: unparsable fields read as zero, the
// clock fields land in calendar ranges, and too few fields are an error.
#[test]
fn wall_clock_csv() {
    let raw: &[u8] = b"1.5,2,3,4,5,6,7,8,9,10,11,12,13,14,15,8,-60";
    let p = parse_telemetry_data(raw, 3).expect("seventeen fields decode");
    assert_eq!(p.id, 3);
    assert_eq!(p.acceleration_x, 1_500_000);
    assert_eq!(p.velocity_x, 4_000_000);
    assert_eq!(p.satellites, 8);
    assert_eq!(p.rssi, -60_000_000);
    assert_eq!(p.battery, 100_000_000);
    assert!(p.connected);
    assert!(p.month >= 1 && p.month <= 12);
    assert!(p.day >= 1 && p.day <= 31);
    assert!(p.hour <= 23 && p.minute <= 59 && p.second <= 59);

    let bad: &[u8] = b"1,2,3,4,5,6,7,8,9,10,11,12,13,14,15,8";
    let e = parse_telemetry_data(bad, 3).unwrap_err();
    assert_eq!(e, TelemetryError::Incomplete);
    assert_eq!(e.message().as_str(), "Incomplete telemetry data");

    let garbled: &[u8] = b"x,2,3,4,5,6,7,8,9,10,11,12,13,14,15,8,-60";
    let g = parse_telemetry_data(garbled, 1).expect("still decodes");
    assert_eq!(g.acceleration_x, 0);
}
