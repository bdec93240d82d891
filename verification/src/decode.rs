//! Frame decoding: the key-value frame body shared by two wire variants,
//! the inline-RSSI suffix, and the timestamped-CSV variant.

use vstd::prelude::*;
use crate::fixedpoint::{
    all_digits, bytes_eq, digits_val, find_byte, find_subslice, lemma_spec_find_sub, matches_at,
    parse_decimal_micro, parse_i32, parse_u64, spec_decimal_micro, spec_find, spec_find_sub,
    spec_signed_int, spec_split, spec_trim, split_bytes, trim_bytes,
};
use crate::sample::{base_model, SampleModel, TelemetryData};

verus! {

/// The channels a key-value pair may address.
pub enum FieldKey {
    Timestamp,
    AccX,
    AccY,
    AccZ,
    GyroX,
    GyroY,
    GyroZ,
    MagX,
    MagY,
    MagZ,
    BaroPress,
    Press,
    Altitude,
    Humidity,
    GpsLat,
    GpsLon,
    Temp,
    Satellites,
    Unknown,
}

pub open spec fn key_timestamp() -> Seq<u8> {
    seq!['t' as u8, 'i' as u8, 'm' as u8, 'e' as u8, 's' as u8, 't' as u8, 'a' as u8, 'm' as u8, 'p' as u8]
}

pub open spec fn key_acc_x() -> Seq<u8> {
    seq!['a' as u8, 'c' as u8, 'c' as u8, '_' as u8, 'x' as u8]
}

pub open spec fn key_acc_y() -> Seq<u8> {
    seq!['a' as u8, 'c' as u8, 'c' as u8, '_' as u8, 'y' as u8]
}

pub open spec fn key_acc_z() -> Seq<u8> {
    seq!['a' as u8, 'c' as u8, 'c' as u8, '_' as u8, 'z' as u8]
}

pub open spec fn key_gyro_x() -> Seq<u8> {
    seq!['g' as u8, 'y' as u8, 'r' as u8, 'o' as u8, '_' as u8, 'x' as u8]
}

pub open spec fn key_gyro_y() -> Seq<u8> {
    seq!['g' as u8, 'y' as u8, 'r' as u8, 'o' as u8, '_' as u8, 'y' as u8]
}

pub open spec fn key_gyro_z() -> Seq<u8> {
    seq!['g' as u8, 'y' as u8, 'r' as u8, 'o' as u8, '_' as u8, 'z' as u8]
}

pub open spec fn key_mag_x() -> Seq<u8> {
    seq!['m' as u8, 'a' as u8, 'g' as u8, '_' as u8, 'x' as u8]
}

pub open spec fn key_mag_y() -> Seq<u8> {
    seq!['m' as u8, 'a' as u8, 'g' as u8, '_' as u8, 'y' as u8]
}

pub open spec fn key_mag_z() -> Seq<u8> {
    seq!['m' as u8, 'a' as u8, 'g' as u8, '_' as u8, 'z' as u8]
}

pub open spec fn key_baro_press() -> Seq<u8> {
    seq!['b' as u8, 'a' as u8, 'r' as u8, 'o' as u8, '_' as u8, 'p' as u8, 'r' as u8, 'e' as u8, 's' as u8, 's' as u8]
}

pub open spec fn key_press() -> Seq<u8> {
    seq!['p' as u8, 'r' as u8, 'e' as u8, 's' as u8, 's' as u8]
}

pub open spec fn key_altitude() -> Seq<u8> {
    seq!['a' as u8, 'l' as u8, 't' as u8, 'i' as u8, 't' as u8, 'u' as u8, 'd' as u8, 'e' as u8]
}

pub open spec fn key_humidity() -> Seq<u8> {
    seq!['h' as u8, 'u' as u8, 'm' as u8, 'i' as u8, 'd' as u8, 'i' as u8, 't' as u8, 'y' as u8]
}

pub open spec fn key_gps_lat() -> Seq<u8> {
    seq!['g' as u8, 'p' as u8, 's' as u8, '_' as u8, 'l' as u8, 'a' as u8, 't' as u8]
}

pub open spec fn key_gps_lon() -> Seq<u8> {
    seq!['g' as u8, 'p' as u8, 's' as u8, '_' as u8, 'l' as u8, 'o' as u8, 'n' as u8]
}

pub open spec fn key_temp() -> Seq<u8> {
    seq!['t' as u8, 'e' as u8, 'm' as u8, 'p' as u8]
}

pub open spec fn key_satellites() -> Seq<u8> {
    seq!['s' as u8, 'a' as u8, 't' as u8, 'e' as u8, 'l' as u8, 'l' as u8, 'i' as u8, 't' as u8, 'e' as u8, 's' as u8]
}

/// Which channel a trimmed key addresses; anything unrecognized is ignored.
pub open spec fn spec_field_key(key: Seq<u8>) -> FieldKey {
    if key == key_timestamp() {
        FieldKey::Timestamp
    } else if key == key_acc_x() {
        FieldKey::AccX
    } else if key == key_acc_y() {
        FieldKey::AccY
    } else if key == key_acc_z() {
        FieldKey::AccZ
    } else if key == key_gyro_x() {
        FieldKey::GyroX
    } else if key == key_gyro_y() {
        FieldKey::GyroY
    } else if key == key_gyro_z() {
        FieldKey::GyroZ
    } else if key == key_mag_x() {
        FieldKey::MagX
    } else if key == key_mag_y() {
        FieldKey::MagY
    } else if key == key_mag_z() {
        FieldKey::MagZ
    } else if key == key_baro_press() {
        FieldKey::BaroPress
    } else if key == key_press() {
        FieldKey::Press
    } else if key == key_altitude() {
        FieldKey::Altitude
    } else if key == key_humidity() {
        FieldKey::Humidity
    } else if key == key_gps_lat() {
        FieldKey::GpsLat
    } else if key == key_gps_lon() {
        FieldKey::GpsLon
    } else if key == key_temp() {
        FieldKey::Temp
    } else if key == key_satellites() {
        FieldKey::Satellites
    } else {
        FieldKey::Unknown
    }
}

/// Recognize a trimmed key.
fn field_key(key: &[u8]) -> (r: FieldKey)
    ensures
        r == spec_field_key(key@),
{
    let k_timestamp: [u8; 9] = ['t' as u8, 'i' as u8, 'm' as u8, 'e' as u8, 's' as u8, 't' as u8, 'a' as u8, 'm' as u8, 'p' as u8];
    let k_acc_x: [u8; 5] = ['a' as u8, 'c' as u8, 'c' as u8, '_' as u8, 'x' as u8];
    let k_acc_y: [u8; 5] = ['a' as u8, 'c' as u8, 'c' as u8, '_' as u8, 'y' as u8];
    let k_acc_z: [u8; 5] = ['a' as u8, 'c' as u8, 'c' as u8, '_' as u8, 'z' as u8];
    let k_gyro_x: [u8; 6] = ['g' as u8, 'y' as u8, 'r' as u8, 'o' as u8, '_' as u8, 'x' as u8];
    let k_gyro_y: [u8; 6] = ['g' as u8, 'y' as u8, 'r' as u8, 'o' as u8, '_' as u8, 'y' as u8];
    let k_gyro_z: [u8; 6] = ['g' as u8, 'y' as u8, 'r' as u8, 'o' as u8, '_' as u8, 'z' as u8];
    let k_mag_x: [u8; 5] = ['m' as u8, 'a' as u8, 'g' as u8, '_' as u8, 'x' as u8];
    let k_mag_y: [u8; 5] = ['m' as u8, 'a' as u8, 'g' as u8, '_' as u8, 'y' as u8];
    let k_mag_z: [u8; 5] = ['m' as u8, 'a' as u8, 'g' as u8, '_' as u8, 'z' as u8];
    let k_baro: [u8; 10] = ['b' as u8, 'a' as u8, 'r' as u8, 'o' as u8, '_' as u8, 'p' as u8, 'r' as u8, 'e' as u8, 's' as u8, 's' as u8];
    let k_press: [u8; 5] = ['p' as u8, 'r' as u8, 'e' as u8, 's' as u8, 's' as u8];
    let k_altitude: [u8; 8] = ['a' as u8, 'l' as u8, 't' as u8, 'i' as u8, 't' as u8, 'u' as u8, 'd' as u8, 'e' as u8];
    let k_humidity: [u8; 8] = ['h' as u8, 'u' as u8, 'm' as u8, 'i' as u8, 'd' as u8, 'i' as u8, 't' as u8, 'y' as u8];
    let k_gps_lat: [u8; 7] = ['g' as u8, 'p' as u8, 's' as u8, '_' as u8, 'l' as u8, 'a' as u8, 't' as u8];
    let k_gps_lon: [u8; 7] = ['g' as u8, 'p' as u8, 's' as u8, '_' as u8, 'l' as u8, 'o' as u8, 'n' as u8];
    let k_temp: [u8; 4] = ['t' as u8, 'e' as u8, 'm' as u8, 'p' as u8];
    let k_satellites: [u8; 10] = ['s' as u8, 'a' as u8, 't' as u8, 'e' as u8, 'l' as u8, 'l' as u8, 'i' as u8, 't' as u8, 'e' as u8, 's' as u8];
    proof {
        assert(k_timestamp@ =~= key_timestamp());
        assert(k_acc_x@ =~= key_acc_x());
        assert(k_acc_y@ =~= key_acc_y());
        assert(k_acc_z@ =~= key_acc_z());
        assert(k_gyro_x@ =~= key_gyro_x());
        assert(k_gyro_y@ =~= key_gyro_y());
        assert(k_gyro_z@ =~= key_gyro_z());
        assert(k_mag_x@ =~= key_mag_x());
        assert(k_mag_y@ =~= key_mag_y());
        assert(k_mag_z@ =~= key_mag_z());
        assert(k_baro@ =~= key_baro_press());
        assert(k_press@ =~= key_press());
        assert(k_altitude@ =~= key_altitude());
        assert(k_humidity@ =~= key_humidity());
        assert(k_gps_lat@ =~= key_gps_lat());
        assert(k_gps_lon@ =~= key_gps_lon());
        assert(k_temp@ =~= key_temp());
        assert(k_satellites@ =~= key_satellites());
    }
    if bytes_eq(key, k_timestamp.as_slice()) {
        FieldKey::Timestamp
    } else if bytes_eq(key, k_acc_x.as_slice()) {
        FieldKey::AccX
    } else if bytes_eq(key, k_acc_y.as_slice()) {
        FieldKey::AccY
    } else if bytes_eq(key, k_acc_z.as_slice()) {
        FieldKey::AccZ
    } else if bytes_eq(key, k_gyro_x.as_slice()) {
        FieldKey::GyroX
    } else if bytes_eq(key, k_gyro_y.as_slice()) {
        FieldKey::GyroY
    } else if bytes_eq(key, k_gyro_z.as_slice()) {
        FieldKey::GyroZ
    } else if bytes_eq(key, k_mag_x.as_slice()) {
        FieldKey::MagX
    } else if bytes_eq(key, k_mag_y.as_slice()) {
        FieldKey::MagY
    } else if bytes_eq(key, k_mag_z.as_slice()) {
        FieldKey::MagZ
    } else if bytes_eq(key, k_baro.as_slice()) {
        FieldKey::BaroPress
    } else if bytes_eq(key, k_press.as_slice()) {
        FieldKey::Press
    } else if bytes_eq(key, k_altitude.as_slice()) {
        FieldKey::Altitude
    } else if bytes_eq(key, k_humidity.as_slice()) {
        FieldKey::Humidity
    } else if bytes_eq(key, k_gps_lat.as_slice()) {
        FieldKey::GpsLat
    } else if bytes_eq(key, k_gps_lon.as_slice()) {
        FieldKey::GpsLon
    } else if bytes_eq(key, k_temp.as_slice()) {
        FieldKey::Temp
    } else if bytes_eq(key, k_satellites.as_slice()) {
        FieldKey::Satellites
    } else {
        FieldKey::Unknown
    }
}

/// What one `key:value` pair does to a sample.  A pair without exactly one
/// colon, an unknown key, or an unparsable value leaves the sample unchanged.
pub open spec fn kv_apply(m: SampleModel, pair: Seq<u8>) -> SampleModel {
    let kv = spec_split(pair, ':' as u8);
    if kv.len() != 2 {
        m
    } else {
        let key = spec_trim(kv[0]);
        let val = spec_trim(kv[1]);
        match spec_field_key(key) {
            FieldKey::Timestamp => if val.len() > 0 && all_digits(val) && digits_val(val)
                <= u64::MAX {
                SampleModel { timestamp: digits_val(val) as u64, ..m }
            } else {
                m
            },
            FieldKey::AccX => match spec_decimal_micro(val) {
                Some(x) => SampleModel { acc_x: x as i64, ..m },
                None => m,
            },
            FieldKey::AccY => match spec_decimal_micro(val) {
                Some(x) => SampleModel { acc_y: x as i64, ..m },
                None => m,
            },
            FieldKey::AccZ => match spec_decimal_micro(val) {
                Some(x) => SampleModel { acc_z: x as i64, ..m },
                None => m,
            },
            FieldKey::GyroX => match spec_decimal_micro(val) {
                Some(x) => SampleModel { gyro_x: x as i64, ..m },
                None => m,
            },
            FieldKey::GyroY => match spec_decimal_micro(val) {
                Some(x) => SampleModel { gyro_y: x as i64, ..m },
                None => m,
            },
            FieldKey::GyroZ => match spec_decimal_micro(val) {
                Some(x) => SampleModel { gyro_z: x as i64, ..m },
                None => m,
            },
            FieldKey::MagX => match spec_decimal_micro(val) {
                Some(x) => SampleModel { mag_x: x as i64, ..m },
                None => m,
            },
            FieldKey::MagY => match spec_decimal_micro(val) {
                Some(x) => SampleModel { mag_y: x as i64, ..m },
                None => m,
            },
            FieldKey::MagZ => match spec_decimal_micro(val) {
                Some(x) => SampleModel { mag_z: x as i64, ..m },
                None => m,
            },
            FieldKey::BaroPress => match spec_decimal_micro(val) {
                Some(x) => SampleModel { baro_press: x as i64, ..m },
                None => m,
            },
            FieldKey::Press => match spec_decimal_micro(val) {
                Some(x) => SampleModel { press: x as i64, ..m },
                None => m,
            },
            FieldKey::Altitude => match spec_decimal_micro(val) {
                Some(x) => SampleModel { altitude: x as i64, ..m },
                None => m,
            },
            FieldKey::Humidity => match spec_decimal_micro(val) {
                Some(x) => SampleModel { humidity: x as i64, ..m },
                None => m,
            },
            FieldKey::GpsLat => match spec_decimal_micro(val) {
                Some(x) => SampleModel { gps_lat: x as i64, ..m },
                None => m,
            },
            FieldKey::GpsLon => match spec_decimal_micro(val) {
                Some(x) => SampleModel { gps_lon: x as i64, ..m },
                None => m,
            },
            FieldKey::Temp => match spec_decimal_micro(val) {
                Some(x) => SampleModel { temp: x as i64, ..m },
                None => m,
            },
            FieldKey::Satellites => if val.len() > 0 && all_digits(val) && digits_val(val) <= 255 {
                SampleModel { satellites: digits_val(val) as u8, ..m }
            } else {
                m
            },
            FieldKey::Unknown => m,
        }
    }
}

/// Apply one `key:value` pair to the sample under construction.
fn apply_pair(d: &mut TelemetryData, pair: &[u8])
    ensures
        final(d)@ == kv_apply(old(d)@, pair@),
{
    let kv = split_bytes(pair, ':' as u8);
    if kv.len() != 2 {
        proof {
            assert(spec_split(pair@, ':' as u8).len() == kv@.len());
        }
        return ;
    }
    proof {
        assert(spec_split(pair@, ':' as u8)[0] == kv@[0]@);
        assert(spec_split(pair@, ':' as u8)[1] == kv@[1]@);
    }
    let key = trim_bytes(kv[0].as_slice());
    let val = trim_bytes(kv[1].as_slice());
    match field_key(key) {
        FieldKey::Timestamp => {
            match parse_u64(val) {
                Some(x) => {
                    d.timestamp = x;
                },
                None => {},
            }
        },
        FieldKey::AccX => {
            match parse_decimal_micro(val) {
                Some(x) => {
                    d.acc_x = x;
                },
                None => {},
            }
        },
        FieldKey::AccY => {
            match parse_decimal_micro(val) {
                Some(x) => {
                    d.acc_y = x;
                },
                None => {},
            }
        },
        FieldKey::AccZ => {
            match parse_decimal_micro(val) {
                Some(x) => {
                    d.acc_z = x;
                },
                None => {},
            }
        },
        FieldKey::GyroX => {
            match parse_decimal_micro(val) {
                Some(x) => {
                    d.gyro_x = x;
                },
                None => {},
            }
        },
        FieldKey::GyroY => {
            match parse_decimal_micro(val) {
                Some(x) => {
                    d.gyro_y = x;
                },
                None => {},
            }
        },
        FieldKey::GyroZ => {
            match parse_decimal_micro(val) {
                Some(x) => {
                    d.gyro_z = x;
                },
                None => {},
            }
        },
        FieldKey::MagX => {
            match parse_decimal_micro(val) {
                Some(x) => {
                    d.mag_x = x;
                },
                None => {},
            }
        },
        FieldKey::MagY => {
            match parse_decimal_micro(val) {
                Some(x) => {
                    d.mag_y = x;
                },
                None => {},
            }
        },
        FieldKey::MagZ => {
            match parse_decimal_micro(val) {
                Some(x) => {
                    d.mag_z = x;
                },
                None => {},
            }
        },
        FieldKey::BaroPress => {
            match parse_decimal_micro(val) {
                Some(x) => {
                    d.baro_press = x;
                },
                None => {},
            }
        },
        FieldKey::Press => {
            match parse_decimal_micro(val) {
                Some(x) => {
                    d.press = x;
                },
                None => {},
            }
        },
        FieldKey::Altitude => {
            match parse_decimal_micro(val) {
                Some(x) => {
                    d.altitude = x;
                },
                None => {},
            }
        },
        FieldKey::Humidity => {
            match parse_decimal_micro(val) {
                Some(x) => {
                    d.humidity = x;
                },
                None => {},
            }
        },
        FieldKey::GpsLat => {
            match parse_decimal_micro(val) {
                Some(x) => {
                    d.gps_lat = x;
                },
                None => {},
            }
        },
        FieldKey::GpsLon => {
            match parse_decimal_micro(val) {
                Some(x) => {
                    d.gps_lon = x;
                },
                None => {},
            }
        },
        FieldKey::Temp => {
            match parse_decimal_micro(val) {
                Some(x) => {
                    d.temp = x;
                },
                None => {},
            }
        },
        FieldKey::Satellites => {
            match parse_u64(val) {
                Some(x) => {
                    if x <= 255 {
                        d.satellites = x as u8;
                    }
                },
                None => {},
            }
        },
        FieldKey::Unknown => {},
    }
}

/// Fold a list of pairs over a starting sample, first pair first; a later
/// pair for the same key overwrites an earlier one.
pub open spec fn kv_fold(m: SampleModel, pairs: Seq<Seq<u8>>) -> SampleModel
    decreases pairs.len(),
{
    if pairs.len() == 0 {
        m
    } else {
        kv_apply(kv_fold(m, pairs.drop_last()), pairs.last())
    }
}

/// The key-value frame grammar: a `[` opens the body, an optional closing
/// `]` is dropped, and the body is comma-separated `key:value` pairs folded
/// over a zero sample that carries the externally correlated `rssi`/`snr`.
/// Missing keys keep their defaults by design; only a frame that does not
/// open with `[` is rejected.
pub open spec fn spec_parse_telemetry(s: Seq<u8>, rssi: i32, snr: i64) -> Option<SampleModel> {
    if s.len() == 0 || s[0] != '[' as u8 {
        None
    } else {
        let inner = s.skip(1);
        let content = if inner.len() > 0 && inner.last() == ']' as u8 {
            inner.drop_last()
        } else {
            inner
        };
        Some(kv_fold(base_model(rssi, snr), spec_split(content, ',' as u8)))
    }
}

/// Decode one key-value frame body together with correlated radio metadata.
#[verifier::loop_isolation(false)]
pub fn parse_telemetry(raw_message: &[u8], rssi: i32, snr: i64) -> (r: Option<TelemetryData>)
    ensures
        r is Some <==> spec_parse_telemetry(raw_message@, rssi, snr) is Some,
        r is Some ==> Some(r->Some_0@) == spec_parse_telemetry(raw_message@, rssi, snr),
{
    let n = raw_message.len();
    if n == 0 || raw_message[0] != '[' as u8 {
        return None;
    }
    let content: &[u8] = if raw_message[n - 1] == ']' as u8 && n > 1 {
        &raw_message[1..n - 1]
    } else {
        &raw_message[1..n]
    };
    proof {
        let inner = raw_message@.skip(1);
        if raw_message@[n - 1] == ']' as u8 && n > 1 {
            assert(content@ =~= inner.drop_last());
        } else {
            assert(content@ =~= inner);
        }
    }
    let pairs = split_bytes(content, ',' as u8);
    let ghost pseq = spec_split(content@, ',' as u8);
    let mut d = TelemetryData::default();
    d.rssi = rssi;
    d.snr = snr;
    proof {
        assert(d@ =~~= base_model(rssi, snr));
        assert(pseq.take(0) =~= Seq::<Seq<u8>>::empty());
    }
    let mut i: usize = 0;
    while i < pairs.len()
        invariant
            0 <= i <= pairs@.len(),
            pairs@.map_values(|v: Vec<u8>| v@) == pseq,
            d@ == kv_fold(base_model(rssi, snr), pseq.take(i as int)),
        decreases pairs@.len() - i,
    {
        proof {
            assert(pseq.take(i + 1).drop_last() =~= pseq.take(i as int));
            assert(pseq.take(i + 1).last() == pairs@[i as int]@);
        }
        apply_pair(&mut d, pairs[i].as_slice());
        i = i + 1;
    }
    proof {
        assert(pseq.take(pairs@.len() as int) =~= pseq);
    }
    Some(d)
}

/// The `],rssi:` marker that closes an inline-metadata frame body.
pub open spec fn rssi_marker() -> Seq<u8> {
    seq![']' as u8, ',' as u8, 'r' as u8, 's' as u8, 's' as u8, 'i' as u8, ':' as u8]
}

/// The inline-RSSI variant: everything after the first `],rssi:` marker is
/// the signal strength (the sentinel -100 when absent or unparsable), and
/// the part before the marker is an ordinary key-value body.  SNR is not
/// carried inline and defaults to zero.
pub open spec fn spec_parse_inline(s: Seq<u8>) -> Option<SampleModel> {
    let i = spec_find_sub(s, rssi_marker());
    if i == -1 {
        spec_parse_telemetry(s, -100i32, 0)
    } else {
        let txt = spec_trim(s.skip(i + 7));
        let rssi: i32 = if spec_signed_int(txt) is Some && i32::MIN <= spec_signed_int(
            txt,
        )->Some_0 <= i32::MAX {
            spec_signed_int(txt)->Some_0 as i32
        } else {
            -100i32
        };
        spec_parse_telemetry(s.take(i), rssi, 0)
    }
}

/// Decode one inline-metadata frame, as read straight off the wire.
pub fn parse_telemetry_inline(raw_message: &[u8]) -> (r: Option<TelemetryData>)
    ensures
        r is Some <==> spec_parse_inline(raw_message@) is Some,
        r is Some ==> Some(r->Some_0@) == spec_parse_inline(raw_message@),
{
    let marker: [u8; 7] = [']' as u8, ',' as u8, 'r' as u8, 's' as u8, 's' as u8, 'i' as u8, ':' as u8];
    proof {
        assert(marker@ =~= rssi_marker());
    }
    match find_subslice(raw_message, marker.as_slice()) {
        None => parse_telemetry(raw_message, -100, 0),
        Some(i) => {
            let n = raw_message.len();
            proof {
                lemma_spec_find_sub(raw_message@, marker@);
                assert(matches_at(raw_message@, marker@, i as int));
            }
            let msg = &raw_message[0..i];
            let tail = &raw_message[i + 7..n];
            proof {
                assert(msg@ =~= raw_message@.take(i as int));
                assert(tail@ =~= raw_message@.skip(i + 7));
            }
            let txt = trim_bytes(tail);
            let rssi: i32 = match parse_i32(txt) {
                Some(v) => v,
                None => -100,
            };
            parse_telemetry(msg, rssi, 0)
        },
    }
}

/// The date text with every `/` replaced by `-`, then `T`, the time text,
/// and `Z`: the exact string substitution that rebuilds the ISO timestamp.
pub open spec fn iso_of(date: Seq<u8>, time: Seq<u8>) -> Seq<u8> {
    date.map_values(
        |b: u8|
            if b == '/' as u8 {
                '-' as u8
            } else {
                b
            },
    ) + seq!['T' as u8] + time + seq!['Z' as u8]
}

/// A clock component: decimal digits whose value is at most `max`.
pub open spec fn spec_clock_field(s: Seq<u8>, max: int) -> Option<int> {
    if s.len() > 0 && all_digits(s) && digits_val(s) <= max {
        Some(digits_val(s))
    } else {
        None
    }
}

/// The bracketed header `<date> (<weekday>) <time>`: returns the rebuilt ISO
/// text and the time of day in whole seconds.
pub open spec fn spec_parse_header(h: Seq<u8>) -> Option<(Seq<u8>, int)> {
    let parts = spec_split(h, ' ' as u8);
    if parts.len() != 3 {
        None
    } else {
        let date = parts[0];
        let wd = parts[1];
        let time = parts[2];
        if date.len() == 0 || wd.len() < 2 || wd[0] != '(' as u8 || wd.last() != ')' as u8 {
            None
        } else {
            let tp = spec_split(time, ':' as u8);
            if tp.len() != 3 {
                None
            } else {
                let hh = spec_clock_field(tp[0], 23);
                let mm = spec_clock_field(tp[1], 59);
                let ss = spec_clock_field(tp[2], 59);
                if hh is Some && mm is Some && ss is Some {
                    Some((iso_of(date, time), hh->Some_0 * 3600 + mm->Some_0 * 60 + ss->Some_0))
                } else {
                    None
                }
            }
        }
    }
}

/// An unsigned integer field that fits the satellite count.
pub open spec fn spec_sat_field(s: Seq<u8>) -> Option<int> {
    if s.len() > 0 && all_digits(s) && digits_val(s) <= 255 {
        Some(digits_val(s))
    } else {
        None
    }
}

/// A signed integer field that fits an `i32`.
pub open spec fn spec_rssi_field(s: Seq<u8>) -> Option<int> {
    if spec_signed_int(s) is Some && i32::MIN <= spec_signed_int(s)->Some_0 <= i32::MAX {
        spec_signed_int(s)
    } else {
        None
    }
}

/// The timestamped-CSV variant, strict by design: `[<date> (<weekday>)
/// <time>]` followed by exactly eighteen comma-separated numeric fields, in
/// the order acc x/y/z, gyro x/y/z, mag x/y/z, baro_press, press, altitude,
/// humidity, gps_lat, gps_lon, temp, satellites, rssi.  Any missing or
/// unparsable field rejects the whole frame; the tick count is the time of
/// day in milliseconds.
pub open spec fn spec_parse_timestamped_csv(s: Seq<u8>) -> Option<SampleModel> {
    if s.len() == 0 || s[0] != '[' as u8 {
        None
    } else {
        let c = spec_find(s, ']' as u8);
        if c == -1 {
            None
        } else {
            match spec_parse_header(s.subrange(1, c)) {
                None => None,
                Some((iso, secs)) => {
                    let fs = spec_split(spec_trim(s.skip(c + 1)), ',' as u8);
                    if fs.len() != 18 {
                        None
                    } else {
                        let f0 = spec_decimal_micro(spec_trim(fs[0]));
                        let f1 = spec_decimal_micro(spec_trim(fs[1]));
                        let f2 = spec_decimal_micro(spec_trim(fs[2]));
                        let f3 = spec_decimal_micro(spec_trim(fs[3]));
                        let f4 = spec_decimal_micro(spec_trim(fs[4]));
                        let f5 = spec_decimal_micro(spec_trim(fs[5]));
                        let f6 = spec_decimal_micro(spec_trim(fs[6]));
                        let f7 = spec_decimal_micro(spec_trim(fs[7]));
                        let f8 = spec_decimal_micro(spec_trim(fs[8]));
                        let f9 = spec_decimal_micro(spec_trim(fs[9]));
                        let f10 = spec_decimal_micro(spec_trim(fs[10]));
                        let f11 = spec_decimal_micro(spec_trim(fs[11]));
                        let f12 = spec_decimal_micro(spec_trim(fs[12]));
                        let f13 = spec_decimal_micro(spec_trim(fs[13]));
                        let f14 = spec_decimal_micro(spec_trim(fs[14]));
                        let f15 = spec_decimal_micro(spec_trim(fs[15]));
                        let sat = spec_sat_field(spec_trim(fs[16]));
                        let rs = spec_rssi_field(spec_trim(fs[17]));
                        if f0 is Some && f1 is Some && f2 is Some && f3 is Some && f4 is Some
                            && f5 is Some && f6 is Some && f7 is Some && f8 is Some && f9 is Some
                            && f10 is Some && f11 is Some && f12 is Some && f13 is Some
                            && f14 is Some && f15 is Some && sat is Some && rs is Some {
                            Some(
                                SampleModel {
                                    timestamp: (secs * 1000) as u64,
                                    iso_time: iso,
                                    acc_x: f0->Some_0 as i64,
                                    acc_y: f1->Some_0 as i64,
                                    acc_z: f2->Some_0 as i64,
                                    gyro_x: f3->Some_0 as i64,
                                    gyro_y: f4->Some_0 as i64,
                                    gyro_z: f5->Some_0 as i64,
                                    mag_x: f6->Some_0 as i64,
                                    mag_y: f7->Some_0 as i64,
                                    mag_z: f8->Some_0 as i64,
                                    baro_press: f9->Some_0 as i64,
                                    press: f10->Some_0 as i64,
                                    altitude: f11->Some_0 as i64,
                                    humidity: f12->Some_0 as i64,
                                    gps_lat: f13->Some_0 as i64,
                                    gps_lon: f14->Some_0 as i64,
                                    temp: f15->Some_0 as i64,
                                    satellites: sat->Some_0 as u8,
                                    rssi: rs->Some_0 as i32,
                                    snr: 0,
                                },
                            )
                        } else {
                            None
                        }
                    }
                },
            }
        }
    }
}

/// The wire-format variants a session can be configured with; the format is
/// chosen per session, never auto-detected.
#[derive(Clone, Copy, Debug, PartialEq, Eq, Structural)]
pub enum Variant {
    /// `[<date> (<weekday>) <time>]` and eighteen strict CSV fields.
    TimestampedCsv,
    /// `[k1:v1,k2:v2,...]` with radio metadata correlated separately.
    KeyValue,
    /// A key-value body with an inline `],rssi:<int>` suffix.
    CsvInlineRssi,
}

/// Decode one frame body under the session's variant, with the radio
/// metadata the correlator gathered.  The strict CSV variant carries its own
/// rssi field, but correlated metadata, when it is in play, overrides both
/// channels; the inline variant carries rssi in the frame itself and only
/// takes the correlated noise ratio.
pub open spec fn spec_decode_frame(v: Variant, body: Seq<u8>, rssi: i32, snr: i64) -> Option<
    SampleModel,
> {
    match v {
        Variant::KeyValue => spec_parse_telemetry(body, rssi, snr),
        Variant::TimestampedCsv => match spec_parse_timestamped_csv(body) {
            Some(m) => Some(SampleModel { rssi: rssi, snr: snr, ..m }),
            None => None,
        },
        Variant::CsvInlineRssi => match spec_parse_inline(body) {
            Some(m) => Some(SampleModel { snr: snr, ..m }),
            None => None,
        },
    }
}

/// Decode one frame body under `v` with correlated metadata.
pub fn decode_frame(v: Variant, body: &[u8], rssi: i32, snr: i64) -> (r: Option<TelemetryData>)
    ensures
        r is Some <==> spec_decode_frame(v, body@, rssi, snr) is Some,
        r is Some ==> Some(r->Some_0@) == spec_decode_frame(v, body@, rssi, snr),
{
    match v {
        Variant::KeyValue => parse_telemetry(body, rssi, snr),
        Variant::TimestampedCsv => {
            match parse_timestamped_csv(body) {
                Some(d) => {
                    let mut d = d;
                    d.rssi = rssi;
                    d.snr = snr;
                    proof {
                        assert(Some(d@) =~~= spec_decode_frame(v, body@, rssi, snr));
                    }
                    Some(d)
                },
                None => None,
            }
        },
        Variant::CsvInlineRssi => {
            match parse_telemetry_inline(body) {
                Some(d) => {
                    let mut d = d;
                    d.snr = snr;
                    proof {
                        assert(Some(d@) =~~= spec_decode_frame(v, body@, rssi, snr));
                    }
                    Some(d)
                },
                None => None,
            }
        },
    }
}

/// A timestamped-CSV frame decodes only when its body splits into exactly
/// eighteen fields; with any other count — seventeen, say — no sample comes
/// out.
pub proof fn lemma_timestamped_csv_field_count(s: Seq<u8>)
    requires
        spec_parse_timestamped_csv(s) is Some,
    ensures
        spec_find(s, ']' as u8) != -1,
        spec_split(spec_trim(s.skip(spec_find(s, ']' as u8) + 1)), ',' as u8).len() == 18,
{
}

/// On a well-formed frame — a valid header and eighteen parsable fields —
/// decoding succeeds, every output channel is exactly the value its input
/// field denotes, and the timestamp text is the exact string substitution
/// of the header's date and time.
#[verifier::rlimit(100)]
#[verifier::spinoff_prover]
pub proof fn lemma_timestamped_csv_exact(s: Seq<u8>)
    requires
        s.len() > 0,
        s[0] == '[' as u8,
        spec_find(s, ']' as u8) != -1,
        spec_parse_header(s.subrange(1, spec_find(s, ']' as u8))) is Some,
        ({
            let fs = spec_split(spec_trim(s.skip(spec_find(s, ']' as u8) + 1)), ',' as u8);
            &&& fs.len() == 18
            &&& (forall|j: int|
                0 <= j < 16 ==> #[trigger] spec_decimal_micro(spec_trim(fs[j])) is Some)
            &&& spec_sat_field(spec_trim(fs[16])) is Some
            &&& spec_rssi_field(spec_trim(fs[17])) is Some
        }),
    ensures
        spec_parse_timestamped_csv(s) is Some,
        ({
            let c = spec_find(s, ']' as u8);
            let h = spec_parse_header(s.subrange(1, c))->Some_0;
            let fs = spec_split(spec_trim(s.skip(c + 1)), ',' as u8);
            let m = spec_parse_timestamped_csv(s)->Some_0;
            &&& m.iso_time == h.0
            &&& m.timestamp == h.1 * 1000
            &&& m.acc_x == spec_decimal_micro(spec_trim(fs[0]))->Some_0
            &&& m.acc_y == spec_decimal_micro(spec_trim(fs[1]))->Some_0
            &&& m.acc_z == spec_decimal_micro(spec_trim(fs[2]))->Some_0
            &&& m.gyro_x == spec_decimal_micro(spec_trim(fs[3]))->Some_0
            &&& m.gyro_y == spec_decimal_micro(spec_trim(fs[4]))->Some_0
            &&& m.gyro_z == spec_decimal_micro(spec_trim(fs[5]))->Some_0
            &&& m.mag_x == spec_decimal_micro(spec_trim(fs[6]))->Some_0
            &&& m.mag_y == spec_decimal_micro(spec_trim(fs[7]))->Some_0
            &&& m.mag_z == spec_decimal_micro(spec_trim(fs[8]))->Some_0
            &&& m.baro_press == spec_decimal_micro(spec_trim(fs[9]))->Some_0
            &&& m.press == spec_decimal_micro(spec_trim(fs[10]))->Some_0
            &&& m.altitude == spec_decimal_micro(spec_trim(fs[11]))->Some_0
            &&& m.humidity == spec_decimal_micro(spec_trim(fs[12]))->Some_0
            &&& m.gps_lat == spec_decimal_micro(spec_trim(fs[13]))->Some_0
            &&& m.gps_lon == spec_decimal_micro(spec_trim(fs[14]))->Some_0
            &&& m.temp == spec_decimal_micro(spec_trim(fs[15]))->Some_0
            &&& m.satellites == spec_sat_field(spec_trim(fs[16]))->Some_0
            &&& m.rssi == spec_rssi_field(spec_trim(fs[17]))->Some_0
            &&& m.snr == 0
        }),
{
    let c = spec_find(s, ']' as u8);
    let fs = spec_split(spec_trim(s.skip(c + 1)), ',' as u8);
    assert(all_digits(spec_trim(fs[16])));
    crate::fixedpoint::lemma_digits_val_nonneg(spec_trim(fs[16]));
    let h = spec_parse_header(s.subrange(1, c));
    let parts = spec_split(s.subrange(1, c), ' ' as u8);
    let tp = spec_split(parts[2], ':' as u8);
    crate::fixedpoint::lemma_digits_val_nonneg(tp[0]);
    crate::fixedpoint::lemma_digits_val_nonneg(tp[1]);
    crate::fixedpoint::lemma_digits_val_nonneg(tp[2]);
    assert forall|j: int| 0 <= j < 16 implies {
        &&& #[trigger] spec_decimal_micro(spec_trim(fs[j])) is Some
        &&& crate::fixedpoint::micro_in_range(spec_decimal_micro(spec_trim(fs[j]))->Some_0)
    } by {
        crate::fixedpoint::lemma_decimal_micro_range(spec_trim(fs[j]));
    }
}

/// The header's reconstructed text is exactly the date with `/` replaced by
/// `-`, then `T`, the time, and `Z`.
pub proof fn lemma_header_substitution(h: Seq<u8>)
    requires
        spec_parse_header(h) is Some,
    ensures
        ({
            let parts = spec_split(h, ' ' as u8);
            &&& parts.len() == 3
            &&& spec_parse_header(h)->Some_0.0 == iso_of(parts[0], parts[2])
        }),
{
}

/// Rebuild the ISO text from the date and time parts of a header.
fn build_iso(date: &[u8], time: &[u8]) -> (r: Vec<u8>)
    ensures
        r@ == iso_of(date@, time@),
{
    let mut out: Vec<u8> = Vec::new();
    let n = date.len();
    let mut i: usize = 0;
    while i < n
        invariant
            0 <= i <= n,
            n == date@.len(),
            out@ =~= date@.take(i as int).map_values(
                |b: u8|
                    if b == '/' as u8 {
                        '-' as u8
                    } else {
                        b
                    },
            ),
        decreases n - i,
    {
        let b = date[i];
        if b == '/' as u8 {
            out.push('-' as u8);
        } else {
            out.push(b);
        }
        proof {
            assert(date@.take(i + 1).drop_last() =~= date@.take(i as int));
            assert(out@ =~= date@.take(i + 1).map_values(
                |b: u8|
                    if b == '/' as u8 {
                        '-' as u8
                    } else {
                        b
                    },
            ));
        }
        i = i + 1;
    }
    proof {
        assert(date@.take(n as int) =~= date@);
    }
    out.push('T' as u8);
    let mut j: usize = 0;
    let m = time.len();
    while j < m
        invariant
            0 <= j <= m,
            m == time@.len(),
            out@ =~= date@.map_values(
                |b: u8|
                    if b == '/' as u8 {
                        '-' as u8
                    } else {
                        b
                    },
            ) + seq!['T' as u8] + time@.take(j as int),
        decreases m - j,
    {
        out.push(time[j]);
        proof {
            assert(time@.take(j + 1) =~= time@.take(j as int).push(time@[j as int]));
        }
        j = j + 1;
    }
    proof {
        assert(time@.take(m as int) =~= time@);
    }
    out.push('Z' as u8);
    proof {
        assert(out@ =~= iso_of(date@, time@));
    }
    out
}

/// Parse the header between the brackets: date, parenthesized weekday, time.
fn parse_header(h: &[u8]) -> (r: Option<(Vec<u8>, u64)>)
    ensures
        r is Some <==> spec_parse_header(h@) is Some,
        r is Some ==> spec_parse_header(h@) == Some(
            (r->Some_0.0@, r->Some_0.1 as int),
        ),
        r is Some ==> r->Some_0.1 <= 86_399,
{
    let parts = split_bytes(h, ' ' as u8);
    if parts.len() != 3 {
        return None;
    }
    proof {
        assert(spec_split(h@, ' ' as u8)[0] == parts@[0]@);
        assert(spec_split(h@, ' ' as u8)[1] == parts@[1]@);
        assert(spec_split(h@, ' ' as u8)[2] == parts@[2]@);
    }
    let date = parts[0].as_slice();
    let wd = parts[1].as_slice();
    let time = parts[2].as_slice();
    if date.len() == 0 || wd.len() < 2 {
        return None;
    }
    if wd[0] != '(' as u8 || wd[wd.len() - 1] != ')' as u8 {
        proof {
            assert(wd@.last() == wd@[wd@.len() - 1]);
        }
        return None;
    }
    let tp = split_bytes(time, ':' as u8);
    if tp.len() != 3 {
        return None;
    }
    proof {
        assert(spec_split(time@, ':' as u8)[0] == tp@[0]@);
        assert(spec_split(time@, ':' as u8)[1] == tp@[1]@);
        assert(spec_split(time@, ':' as u8)[2] == tp@[2]@);
    }
    let hh = match parse_u64(tp[0].as_slice()) {
        Some(v) => {
            if v > 23 {
                return None;
            }
            v
        },
        None => {
            return None;
        },
    };
    let mm = match parse_u64(tp[1].as_slice()) {
        Some(v) => {
            if v > 59 {
                return None;
            }
            v
        },
        None => {
            return None;
        },
    };
    let ss = match parse_u64(tp[2].as_slice()) {
        Some(v) => {
            if v > 59 {
                return None;
            }
            v
        },
        None => {
            return None;
        },
    };
    let iso = build_iso(date, time);
    Some((iso, hh * 3600 + mm * 60 + ss))
}

/// Decode one strict timestamped-CSV frame.
pub fn parse_timestamped_csv(frame: &[u8]) -> (r: Option<TelemetryData>)
    ensures
        r is Some <==> spec_parse_timestamped_csv(frame@) is Some,
        r is Some ==> Some(r->Some_0@) == spec_parse_timestamped_csv(frame@),
{
    let n = frame.len();
    if n == 0 || frame[0] != '[' as u8 {
        return None;
    }
    let c = match find_byte(frame, ']' as u8) {
        Some(c) => c,
        None => {
            return None;
        },
    };
    proof {
        crate::fixedpoint::lemma_spec_find(frame@, ']' as u8);
    }
    let header = &frame[1..c];
    let rest = &frame[c + 1..n];
    proof {
        assert(header@ =~= frame@.subrange(1, c as int));
        assert(rest@ =~= frame@.skip(c + 1));
    }
    let (iso, secs) = match parse_header(header) {
        Some(p) => p,
        None => {
            return None;
        },
    };
    let body = trim_bytes(rest);
    let pieces = split_bytes(body, ',' as u8);
    if pieces.len() != 18 {
        proof {
            assert(spec_split(spec_trim(frame@.skip(c + 1)), ',' as u8).len() == pieces@.len());
        }
        return None;
    }
    proof {
        let fs = spec_split(spec_trim(frame@.skip(c + 1)), ',' as u8);
        assert forall|j: int| 0 <= j < 18 implies fs[j] == pieces@[j]@ by {
            assert(pieces@.map_values(|v: Vec<u8>| v@)[j] == pieces@[j]@);
        }
    }
    let f0 = match parse_decimal_micro(trim_bytes(pieces[0].as_slice())) {
        Some(v) => v,
        None => {
            return None;
        },
    };
    let f1 = match parse_decimal_micro(trim_bytes(pieces[1].as_slice())) {
        Some(v) => v,
        None => {
            return None;
        },
    };
    let f2 = match parse_decimal_micro(trim_bytes(pieces[2].as_slice())) {
        Some(v) => v,
        None => {
            return None;
        },
    };
    let f3 = match parse_decimal_micro(trim_bytes(pieces[3].as_slice())) {
        Some(v) => v,
        None => {
            return None;
        },
    };
    let f4 = match parse_decimal_micro(trim_bytes(pieces[4].as_slice())) {
        Some(v) => v,
        None => {
            return None;
        },
    };
    let f5 = match parse_decimal_micro(trim_bytes(pieces[5].as_slice())) {
        Some(v) => v,
        None => {
            return None;
        },
    };
    let f6 = match parse_decimal_micro(trim_bytes(pieces[6].as_slice())) {
        Some(v) => v,
        None => {
            return None;
        },
    };
    let f7 = match parse_decimal_micro(trim_bytes(pieces[7].as_slice())) {
        Some(v) => v,
        None => {
            return None;
        },
    };
    let f8 = match parse_decimal_micro(trim_bytes(pieces[8].as_slice())) {
        Some(v) => v,
        None => {
            return None;
        },
    };
    let f9 = match parse_decimal_micro(trim_bytes(pieces[9].as_slice())) {
        Some(v) => v,
        None => {
            return None;
        },
    };
    let f10 = match parse_decimal_micro(trim_bytes(pieces[10].as_slice())) {
        Some(v) => v,
        None => {
            return None;
        },
    };
    let f11 = match parse_decimal_micro(trim_bytes(pieces[11].as_slice())) {
        Some(v) => v,
        None => {
            return None;
        },
    };
    let f12 = match parse_decimal_micro(trim_bytes(pieces[12].as_slice())) {
        Some(v) => v,
        None => {
            return None;
        },
    };
    let f13 = match parse_decimal_micro(trim_bytes(pieces[13].as_slice())) {
        Some(v) => v,
        None => {
            return None;
        },
    };
    let f14 = match parse_decimal_micro(trim_bytes(pieces[14].as_slice())) {
        Some(v) => v,
        None => {
            return None;
        },
    };
    let f15 = match parse_decimal_micro(trim_bytes(pieces[15].as_slice())) {
        Some(v) => v,
        None => {
            return None;
        },
    };
    let sat = match parse_u64(trim_bytes(pieces[16].as_slice())) {
        Some(v) => {
            if v > 255 {
                return None;
            }
            v as u8
        },
        None => {
            return None;
        },
    };
    let rs = match parse_i32(trim_bytes(pieces[17].as_slice())) {
        Some(v) => v,
        None => {
            return None;
        },
    };
    Some(
        TelemetryData {
            timestamp: secs * 1000,
            iso_time: iso,
            acc_x: f0,
            acc_y: f1,
            acc_z: f2,
            gyro_x: f3,
            gyro_y: f4,
            gyro_z: f5,
            mag_x: f6,
            mag_y: f7,
            mag_z: f8,
            baro_press: f9,
            press: f10,
            altitude: f11,
            humidity: f12,
            gps_lat: f13,
            gps_lon: f14,
            temp: f15,
            satellites: sat,
            rssi: rs,
            snr: 0,
        },
    )
}

} // verus!
