//! Wall-clock-stamped decoding: the lenient CSV variant whose records are
//! stamped with the receiver's local time rather than a time carried in the
//! frame.  Missing trailing fields reject the frame; an unparsable field
//! falls back to zero by design (devices may garble single values).

use vstd::prelude::*;
use crate::fixedpoint::{
    parse_decimal_micro, parse_i32, spec_decimal_micro, spec_signed_int, spec_split, split_bytes,
};

verus! {

/// A wall-clock reading broken into calendar and clock fields.
#[derive(Clone, Copy, Debug)]
pub struct ClockReading {
    pub year: i32,
    pub month: u32,
    pub day: u32,
    pub hour: u32,
    pub minute: u32,
    pub second: u32,
}

/// The ranges every clock reading obeys.
pub open spec fn clock_in_range(c: ClockReading) -> bool {
    &&& 1 <= c.month <= 12
    &&& 1 <= c.day <= 31
    &&& c.hour <= 23
    &&& c.minute <= 59
    &&& c.second <= 59
}

/// Relies on `chrono::Local::now` read through `Datelike`/`Timelike`:
/// `month` is 1 to 12, `day` 1 to 31, `hour` 0 to 23, `minute` and `second`
/// 0 to 59 (chrono represents a leap second within the previous second).
/// The reading itself depends on the machine's clock and time zone, so
/// nothing more is promised of it.
#[verifier::external_body]
fn local_now_parts() -> (r: ClockReading)
    ensures
        clock_in_range(r),
{
    let now = chrono::Local::now();
    ClockReading {
        year: chrono::Datelike::year(&now),
        month: chrono::Datelike::month(&now),
        day: chrono::Datelike::day(&now),
        hour: chrono::Timelike::hour(&now),
        minute: chrono::Timelike::minute(&now),
        second: chrono::Timelike::second(&now),
    }
}

/// Why a record was rejected.
#[derive(Clone, Copy, Debug, PartialEq, Eq, Structural)]
pub enum TelemetryError {
    /// Fewer fields than the format requires.
    Incomplete,
}

impl TelemetryError {
    /// The human-readable description of the error.
    pub fn message(&self) -> (r: String)
        ensures
            r@ == "Incomplete telemetry data"@,
    {
        <String as vstd::string::StringExecFns>::from_str("Incomplete telemetry data")
    }
}

/// A record of the lenient CSV variant, stamped with a clock reading.
/// Fractional channels are micro-units.
#[derive(Clone, Debug)]
pub struct TelemetryPacket {
    pub id: i32,
    pub year: i32,
    pub month: u32,
    pub day: u32,
    pub hour: u32,
    pub minute: u32,
    pub second: u32,
    pub acceleration_x: i64,
    pub acceleration_y: i64,
    pub acceleration_z: i64,
    pub velocity_x: i64,
    pub velocity_y: i64,
    pub velocity_z: i64,
    pub pitch: i64,
    pub roll: i64,
    pub yaw: i64,
    pub temperature: i64,
    pub pressure: i64,
    pub altitude: i64,
    pub humidity: i64,
    pub latitude: i64,
    pub longitude: i64,
    pub satellites: i32,
    pub rssi: i64,
    pub snr: i64,
    pub battery: i64,
    pub connected: bool,
    pub mission_time: i64,
}

/// A CSV field read as a fixed-point number, zero when unparsable.
pub open spec fn csv_field(vals: Seq<Seq<u8>>, j: int) -> int {
    match spec_decimal_micro(vals[j]) {
        Some(x) => x,
        None => 0,
    }
}

/// A CSV field read as a plain `i32`, zero when unparsable or out of range.
pub open spec fn csv_int_field(vals: Seq<Seq<u8>>, j: int) -> int {
    if spec_signed_int(vals[j]) is Some && i32::MIN <= spec_signed_int(vals[j])->Some_0
        <= i32::MAX {
        spec_signed_int(vals[j])->Some_0
    } else {
        0
    }
}

/// Decode one lenient CSV record against a given clock reading: at least
/// seventeen comma-separated fields, in the order acceleration x/y/z,
/// velocity x/y/z, pitch, roll, yaw, temperature, pressure, altitude,
/// humidity, latitude, longitude, satellites, rssi.  Fields beyond the
/// seventeenth are ignored; an unparsable field reads as zero; fewer than
/// seventeen fields reject the record.  Battery always reads full (100
/// units) and the record is marked connected, mirroring a link that just
/// delivered data.
pub fn parse_telemetry_data_at(raw_data: &[u8], id: i32, clock: ClockReading) -> (r: Result<
    TelemetryPacket,
    TelemetryError,
>)
    ensures
        ({
            let vals = spec_split(raw_data@, ',' as u8);
            &&& (r is Ok <==> vals.len() >= 17)
            &&& (r is Err ==> r->Err_0 == TelemetryError::Incomplete)
            &&& (r is Ok ==> {
                let p = r->Ok_0;
                &&& p.id == id
                &&& p.year == clock.year
                &&& p.month == clock.month
                &&& p.day == clock.day
                &&& p.hour == clock.hour
                &&& p.minute == clock.minute
                &&& p.second == clock.second
                &&& p.acceleration_x == csv_field(vals, 0)
                &&& p.acceleration_y == csv_field(vals, 1)
                &&& p.acceleration_z == csv_field(vals, 2)
                &&& p.velocity_x == csv_field(vals, 3)
                &&& p.velocity_y == csv_field(vals, 4)
                &&& p.velocity_z == csv_field(vals, 5)
                &&& p.pitch == csv_field(vals, 6)
                &&& p.roll == csv_field(vals, 7)
                &&& p.yaw == csv_field(vals, 8)
                &&& p.temperature == csv_field(vals, 9)
                &&& p.pressure == csv_field(vals, 10)
                &&& p.altitude == csv_field(vals, 11)
                &&& p.humidity == csv_field(vals, 12)
                &&& p.latitude == csv_field(vals, 13)
                &&& p.longitude == csv_field(vals, 14)
                &&& p.satellites == csv_int_field(vals, 15)
                &&& p.rssi == csv_field(vals, 16)
                &&& p.snr == 0
                &&& p.battery == 100_000_000
                &&& p.connected == true
                &&& p.mission_time == 0
            })
        }),
{
    let pieces = split_bytes(raw_data, ',' as u8);
    proof {
        assert(pieces@.map_values(|v: Vec<u8>| v@).len() == pieces@.len());
    }
    if pieces.len() < 17 {
        return Err(TelemetryError::Incomplete);
    }
    proof {
        let vals = spec_split(raw_data@, ',' as u8);
        assert forall|j: int| 0 <= j < 17 implies vals[j] == pieces@[j]@ by {
            assert(pieces@.map_values(|v: Vec<u8>| v@)[j] == pieces@[j]@);
        }
    }
    let acceleration_x = match parse_decimal_micro(pieces[0].as_slice()) {
        Some(x) => x,
        None => 0,
    };
    let acceleration_y = match parse_decimal_micro(pieces[1].as_slice()) {
        Some(x) => x,
        None => 0,
    };
    let acceleration_z = match parse_decimal_micro(pieces[2].as_slice()) {
        Some(x) => x,
        None => 0,
    };
    let velocity_x = match parse_decimal_micro(pieces[3].as_slice()) {
        Some(x) => x,
        None => 0,
    };
    let velocity_y = match parse_decimal_micro(pieces[4].as_slice()) {
        Some(x) => x,
        None => 0,
    };
    let velocity_z = match parse_decimal_micro(pieces[5].as_slice()) {
        Some(x) => x,
        None => 0,
    };
    let pitch = match parse_decimal_micro(pieces[6].as_slice()) {
        Some(x) => x,
        None => 0,
    };
    let roll = match parse_decimal_micro(pieces[7].as_slice()) {
        Some(x) => x,
        None => 0,
    };
    let yaw = match parse_decimal_micro(pieces[8].as_slice()) {
        Some(x) => x,
        None => 0,
    };
    let temperature = match parse_decimal_micro(pieces[9].as_slice()) {
        Some(x) => x,
        None => 0,
    };
    let pressure = match parse_decimal_micro(pieces[10].as_slice()) {
        Some(x) => x,
        None => 0,
    };
    let altitude = match parse_decimal_micro(pieces[11].as_slice()) {
        Some(x) => x,
        None => 0,
    };
    let humidity = match parse_decimal_micro(pieces[12].as_slice()) {
        Some(x) => x,
        None => 0,
    };
    let latitude = match parse_decimal_micro(pieces[13].as_slice()) {
        Some(x) => x,
        None => 0,
    };
    let longitude = match parse_decimal_micro(pieces[14].as_slice()) {
        Some(x) => x,
        None => 0,
    };
    let satellites = match parse_i32(pieces[15].as_slice()) {
        Some(x) => x,
        None => 0,
    };
    let rssi = match parse_decimal_micro(pieces[16].as_slice()) {
        Some(x) => x,
        None => 0,
    };
    Ok(
        TelemetryPacket {
            id,
            year: clock.year,
            month: clock.month,
            day: clock.day,
            hour: clock.hour,
            minute: clock.minute,
            second: clock.second,
            acceleration_x,
            acceleration_y,
            acceleration_z,
            velocity_x,
            velocity_y,
            velocity_z,
            pitch,
            roll,
            yaw,
            temperature,
            pressure,
            altitude,
            humidity,
            latitude,
            longitude,
            satellites,
            rssi,
            snr: 0,
            battery: 100_000_000,
            connected: true,
            mission_time: 0,
        },
    )
}

/// Decode one lenient CSV record, stamped with the local wall clock.  The
/// clock decides only the date and time-of-day fields, and whatever it
/// read, those fields are in calendar range and every other field is the
/// exact function of the input that `parse_telemetry_data_at` pins down.
pub fn parse_telemetry_data(raw_data: &[u8], id: i32) -> (r: Result<TelemetryPacket, TelemetryError>)
    ensures
        r is Ok <==> spec_split(raw_data@, ',' as u8).len() >= 17,
        r is Err ==> r->Err_0 == TelemetryError::Incomplete,
        r is Ok ==> ({
            let vals = spec_split(raw_data@, ',' as u8);
            let p = r->Ok_0;
            &&& p.id == id
            &&& 1 <= p.month <= 12
            &&& 1 <= p.day <= 31
            &&& p.hour <= 23 && p.minute <= 59 && p.second <= 59
            &&& p.acceleration_x == csv_field(vals, 0)
            &&& p.acceleration_y == csv_field(vals, 1)
            &&& p.acceleration_z == csv_field(vals, 2)
            &&& p.velocity_x == csv_field(vals, 3)
            &&& p.velocity_y == csv_field(vals, 4)
            &&& p.velocity_z == csv_field(vals, 5)
            &&& p.pitch == csv_field(vals, 6)
            &&& p.roll == csv_field(vals, 7)
            &&& p.yaw == csv_field(vals, 8)
            &&& p.temperature == csv_field(vals, 9)
            &&& p.pressure == csv_field(vals, 10)
            &&& p.altitude == csv_field(vals, 11)
            &&& p.humidity == csv_field(vals, 12)
            &&& p.latitude == csv_field(vals, 13)
            &&& p.longitude == csv_field(vals, 14)
            &&& p.satellites == csv_int_field(vals, 15)
            &&& p.rssi == csv_field(vals, 16)
            &&& p.snr == 0
            &&& p.battery == 100_000_000
            &&& p.connected == true
            &&& p.mission_time == 0
        }),
{
    let clock = local_now_parts();
    parse_telemetry_data_at(raw_data, id, clock)
}

} // verus!
