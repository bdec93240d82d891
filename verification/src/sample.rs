//! Typed telemetry records: the decoded `TelemetryData` sample and the
//! consumer-facing `TelemetryPacket`, together with the documented lossy
//! projection from one to the other.

use vstd::prelude::*;
use crate::fixedpoint::{dec_digits, format_u64};

verus! {

/// One fully decoded telemetry reading.  Fractional channels are fixed-point
/// micro-units; `timestamp` is the raw tick count in milliseconds; `iso_time`
/// holds reconstructed ISO-8601 text for the variant that carries a date, and
/// is empty otherwise.
#[derive(Debug, Clone)]
pub struct TelemetryData {
    pub timestamp: u64,
    pub iso_time: Vec<u8>,
    pub acc_x: i64,
    pub acc_y: i64,
    pub acc_z: i64,
    pub gyro_x: i64,
    pub gyro_y: i64,
    pub gyro_z: i64,
    pub mag_x: i64,
    pub mag_y: i64,
    pub mag_z: i64,
    pub baro_press: i64,
    pub press: i64,
    pub altitude: i64,
    pub humidity: i64,
    pub gps_lat: i64,
    pub gps_lon: i64,
    pub temp: i64,
    pub satellites: u8,
    pub rssi: i32,
    pub snr: i64,
}

/// The mathematical model of a sample: the same channels, with the ISO text
/// as a byte sequence.
#[verifier::ext_equal]
pub ghost struct SampleModel {
    pub timestamp: u64,
    pub iso_time: Seq<u8>,
    pub acc_x: i64,
    pub acc_y: i64,
    pub acc_z: i64,
    pub gyro_x: i64,
    pub gyro_y: i64,
    pub gyro_z: i64,
    pub mag_x: i64,
    pub mag_y: i64,
    pub mag_z: i64,
    pub baro_press: i64,
    pub press: i64,
    pub altitude: i64,
    pub humidity: i64,
    pub gps_lat: i64,
    pub gps_lon: i64,
    pub temp: i64,
    pub satellites: u8,
    pub rssi: i32,
    pub snr: i64,
}

impl View for TelemetryData {
    type V = SampleModel;

    open spec fn view(&self) -> SampleModel {
        SampleModel {
            timestamp: self.timestamp,
            iso_time: self.iso_time@,
            acc_x: self.acc_x,
            acc_y: self.acc_y,
            acc_z: self.acc_z,
            gyro_x: self.gyro_x,
            gyro_y: self.gyro_y,
            gyro_z: self.gyro_z,
            mag_x: self.mag_x,
            mag_y: self.mag_y,
            mag_z: self.mag_z,
            baro_press: self.baro_press,
            press: self.press,
            altitude: self.altitude,
            humidity: self.humidity,
            gps_lat: self.gps_lat,
            gps_lon: self.gps_lon,
            temp: self.temp,
            satellites: self.satellites,
            rssi: self.rssi,
            snr: self.snr,
        }
    }
}

/// The model every decode starts from: all channels zero but for the radio
/// metadata handed in from outside the frame body.
pub open spec fn base_model(rssi: i32, snr: i64) -> SampleModel {
    SampleModel {
        timestamp: 0,
        iso_time: Seq::<u8>::empty(),
        acc_x: 0,
        acc_y: 0,
        acc_z: 0,
        gyro_x: 0,
        gyro_y: 0,
        gyro_z: 0,
        mag_x: 0,
        mag_y: 0,
        mag_z: 0,
        baro_press: 0,
        press: 0,
        altitude: 0,
        humidity: 0,
        gps_lat: 0,
        gps_lon: 0,
        temp: 0,
        satellites: 0,
        rssi: rssi,
        snr: snr,
    }
}

/// All fields zero or empty.
pub open spec fn is_zero_sample(d: TelemetryData) -> bool {
    &&& d.timestamp == 0
    &&& d.iso_time@ == Seq::<u8>::empty()
    &&& d.acc_x == 0 && d.acc_y == 0 && d.acc_z == 0
    &&& d.gyro_x == 0 && d.gyro_y == 0 && d.gyro_z == 0
    &&& d.mag_x == 0 && d.mag_y == 0 && d.mag_z == 0
    &&& d.baro_press == 0 && d.press == 0
    &&& d.altitude == 0 && d.humidity == 0
    &&& d.gps_lat == 0 && d.gps_lon == 0
    &&& d.temp == 0
    &&& d.satellites == 0
    &&& d.rssi == 0
    &&& d.snr == 0
}

impl Default for TelemetryData {
    /// The sample every decode starts from: all channels zero.
    fn default() -> (d: TelemetryData)
        ensures
            is_zero_sample(d),
    {
        TelemetryData {
            timestamp: 0,
            iso_time: Vec::new(),
            acc_x: 0,
            acc_y: 0,
            acc_z: 0,
            gyro_x: 0,
            gyro_y: 0,
            gyro_z: 0,
            mag_x: 0,
            mag_y: 0,
            mag_z: 0,
            baro_press: 0,
            press: 0,
            altitude: 0,
            humidity: 0,
            gps_lat: 0,
            gps_lon: 0,
            temp: 0,
            satellites: 0,
            rssi: 0,
            snr: 0,
        }
    }
}

/// The sequence-numbered, consumer-facing record.  `mission_time` is decimal
/// text for whole mission seconds; `battery` and the other fractional fields
/// are micro-units.
#[derive(Debug, Clone)]
pub struct TelemetryPacket {
    pub id: u32,
    pub mission_time: Vec<u8>,
    pub connected: bool,
    pub satellites: u8,
    pub rssi: i32,
    pub battery: i64,
    pub latitude: i64,
    pub longitude: i64,
    pub altitude: i64,
    pub velocity_x: i64,
    pub velocity_y: i64,
    pub velocity_z: i64,
    pub acceleration_x: i64,
    pub acceleration_y: i64,
    pub acceleration_z: i64,
    pub pitch: i64,
    pub yaw: i64,
    pub roll: i64,
    pub minute: u32,
    pub second: u32,
}

/// The mathematical model of a consumer packet.
#[verifier::ext_equal]
pub ghost struct PacketModel {
    pub id: u32,
    pub mission_time: Seq<u8>,
    pub connected: bool,
    pub satellites: u8,
    pub rssi: i32,
    pub battery: i64,
    pub latitude: i64,
    pub longitude: i64,
    pub altitude: i64,
    pub velocity_x: i64,
    pub velocity_y: i64,
    pub velocity_z: i64,
    pub acceleration_x: i64,
    pub acceleration_y: i64,
    pub acceleration_z: i64,
    pub pitch: i64,
    pub yaw: i64,
    pub roll: i64,
    pub minute: u32,
    pub second: u32,
}

impl View for TelemetryPacket {
    type V = PacketModel;

    open spec fn view(&self) -> PacketModel {
        PacketModel {
            id: self.id,
            mission_time: self.mission_time@,
            connected: self.connected,
            satellites: self.satellites,
            rssi: self.rssi,
            battery: self.battery,
            latitude: self.latitude,
            longitude: self.longitude,
            altitude: self.altitude,
            velocity_x: self.velocity_x,
            velocity_y: self.velocity_y,
            velocity_z: self.velocity_z,
            acceleration_x: self.acceleration_x,
            acceleration_y: self.acceleration_y,
            acceleration_z: self.acceleration_z,
            pitch: self.pitch,
            yaw: self.yaw,
            roll: self.roll,
            minute: self.minute,
            second: self.second,
        }
    }
}

/// The projection of a sample onto the consumer schema.
///
/// This mapping is deliberately lossy: the gyro channels double as both the
/// velocity and the orientation (pitch/yaw/roll) outputs, a connected flag
/// is always raised for a record that was just decoded, and battery is
/// reported as a constant full charge (100 units, in micro-units).
/// `mission_time` is the decimal text of whole mission seconds, and
/// `minute`/`second` are clock-style values modulo one hour.
pub open spec fn spec_convert(m: SampleModel, packet_id: u32) -> PacketModel {
    let secs = m.timestamp / 1000;
    PacketModel {
        id: packet_id,
        mission_time: dec_digits(secs as nat),
        connected: true,
        satellites: m.satellites,
        rssi: m.rssi,
        battery: 100_000_000,
        latitude: m.gps_lat,
        longitude: m.gps_lon,
        altitude: m.altitude,
        velocity_x: m.gyro_x,
        velocity_y: m.gyro_y,
        velocity_z: m.gyro_z,
        acceleration_x: m.acc_x,
        acceleration_y: m.acc_y,
        acceleration_z: m.acc_z,
        pitch: m.gyro_x,
        yaw: m.gyro_y,
        roll: m.gyro_z,
        minute: ((secs / 60) % 60) as u32,
        second: (secs % 60) as u32,
    }
}

/// Project a sample onto the consumer schema (see `spec_convert`).
pub fn convert_to_packet(data: &TelemetryData, packet_id: u32) -> (p: TelemetryPacket)
    ensures
        p@ == spec_convert(data@, packet_id),
{
    let secs: u64 = data.timestamp / 1000;
    TelemetryPacket {
        id: packet_id,
        mission_time: format_u64(secs),
        connected: true,
        satellites: data.satellites,
        rssi: data.rssi,
        battery: 100_000_000,
        latitude: data.gps_lat,
        longitude: data.gps_lon,
        altitude: data.altitude,
        velocity_x: data.gyro_x,
        velocity_y: data.gyro_y,
        velocity_z: data.gyro_z,
        acceleration_x: data.acc_x,
        acceleration_y: data.acc_y,
        acceleration_z: data.acc_z,
        pitch: data.gyro_x,
        yaw: data.gyro_y,
        roll: data.gyro_z,
        minute: ((secs / 60) % 60) as u32,
        second: (secs % 60) as u32,
    }
}

} // verus!
