//! Windowed aggregation: a bounded FIFO of recent samples, reduced to one
//! averaged/mode-reduced sample on a fixed emission cadence.

use vstd::prelude::*;
use crate::fixedpoint::{mean_i64, mode_i64, spec_mean, spec_mode};
use crate::sample::{SampleModel, TelemetryData};

verus! {

/// The continuous channels, each averaged over the window.
#[derive(Clone, Copy, Debug, PartialEq, Eq, Structural)]
pub enum Channel {
    AccX,
    AccY,
    AccZ,
    GyroX,
    GyroY,
    GyroZ,
    MagX,
    MagY,
    MagZ,
    BaroPress,
    Press,
    Altitude,
    Humidity,
    GpsLat,
    GpsLon,
    Temp,
    Snr,
}

/// The value a sample carries on one continuous channel.
pub open spec fn channel_of(m: SampleModel, c: Channel) -> int {
    match c {
        Channel::AccX => m.acc_x as int,
        Channel::AccY => m.acc_y as int,
        Channel::AccZ => m.acc_z as int,
        Channel::GyroX => m.gyro_x as int,
        Channel::GyroY => m.gyro_y as int,
        Channel::GyroZ => m.gyro_z as int,
        Channel::MagX => m.mag_x as int,
        Channel::MagY => m.mag_y as int,
        Channel::MagZ => m.mag_z as int,
        Channel::BaroPress => m.baro_press as int,
        Channel::Press => m.press as int,
        Channel::Altitude => m.altitude as int,
        Channel::Humidity => m.humidity as int,
        Channel::GpsLat => m.gps_lat as int,
        Channel::GpsLon => m.gps_lon as int,
        Channel::Temp => m.temp as int,
        Channel::Snr => m.snr as int,
    }
}

/// The truncated mean of one continuous channel over the window.
pub open spec fn mean_channel(w: Seq<SampleModel>, c: Channel) -> int {
    spec_mean(w.map_values(|m: SampleModel| channel_of(m, c)))
}

/// The reduction of a non-empty window into one sample: continuous channels
/// are averaged (truncated toward zero), the discrete satellite count and
/// signal strength take their statistical mode (ties to the lowest value),
/// and the timestamp and ISO text come from the newest sample.
pub open spec fn spec_reduce(w: Seq<SampleModel>) -> SampleModel
    recommends
        w.len() > 0,
{
    SampleModel {
        timestamp: w.last().timestamp,
        iso_time: w.last().iso_time,
        acc_x: mean_channel(w, Channel::AccX) as i64,
        acc_y: mean_channel(w, Channel::AccY) as i64,
        acc_z: mean_channel(w, Channel::AccZ) as i64,
        gyro_x: mean_channel(w, Channel::GyroX) as i64,
        gyro_y: mean_channel(w, Channel::GyroY) as i64,
        gyro_z: mean_channel(w, Channel::GyroZ) as i64,
        mag_x: mean_channel(w, Channel::MagX) as i64,
        mag_y: mean_channel(w, Channel::MagY) as i64,
        mag_z: mean_channel(w, Channel::MagZ) as i64,
        baro_press: mean_channel(w, Channel::BaroPress) as i64,
        press: mean_channel(w, Channel::Press) as i64,
        altitude: mean_channel(w, Channel::Altitude) as i64,
        humidity: mean_channel(w, Channel::Humidity) as i64,
        gps_lat: mean_channel(w, Channel::GpsLat) as i64,
        gps_lon: mean_channel(w, Channel::GpsLon) as i64,
        temp: mean_channel(w, Channel::Temp) as i64,
        satellites: spec_mode(w.map_values(|m: SampleModel| m.satellites as int)) as u8,
        rssi: spec_mode(w.map_values(|m: SampleModel| m.rssi as int)) as i32,
        snr: mean_channel(w, Channel::Snr) as i64,
    }
}

/// Collect one continuous channel from every sample in the window.
#[verifier::loop_isolation(false)]
fn channel_values(w: &Vec<TelemetryData>, c: Channel) -> (vals: Vec<i64>)
    ensures
        vals@.len() == w@.len(),
        vals@.map_values(|x: i64| x as int) == w@.map_values(|d: TelemetryData| d@).map_values(
            |m: SampleModel| channel_of(m, c),
        ),
{
    let n = w.len();
    let mut vals: Vec<i64> = Vec::new();
    let mut i: usize = 0;
    while i < n
        invariant
            0 <= i <= n,
            vals@.len() == i,
            forall|j: int|
                0 <= j < i ==> #[trigger] vals@[j] as int == channel_of(w@[j]@, c),
        decreases n - i,
    {
        let d = &w[i];
        let x: i64 = match c {
            Channel::AccX => d.acc_x,
            Channel::AccY => d.acc_y,
            Channel::AccZ => d.acc_z,
            Channel::GyroX => d.gyro_x,
            Channel::GyroY => d.gyro_y,
            Channel::GyroZ => d.gyro_z,
            Channel::MagX => d.mag_x,
            Channel::MagY => d.mag_y,
            Channel::MagZ => d.mag_z,
            Channel::BaroPress => d.baro_press,
            Channel::Press => d.press,
            Channel::Altitude => d.altitude,
            Channel::Humidity => d.humidity,
            Channel::GpsLat => d.gps_lat,
            Channel::GpsLon => d.gps_lon,
            Channel::Temp => d.temp,
            Channel::Snr => d.snr,
        };
        vals.push(x);
        i = i + 1;
    }
    proof {
        assert(vals@.map_values(|x: i64| x as int) =~= w@.map_values(
            |d: TelemetryData| d@,
        ).map_values(|m: SampleModel| channel_of(m, c)));
    }
    vals
}

/// Average one channel over a non-empty window.
fn mean_channel_exec(w: &Vec<TelemetryData>, c: Channel) -> (r: i64)
    requires
        w@.len() > 0,
    ensures
        r == mean_channel(w@.map_values(|d: TelemetryData| d@), c),
{
    let vals = channel_values(w, c);
    mean_i64(&vals)
}

/// Collect the satellite counts as wide integers.
#[verifier::loop_isolation(false)]
fn satellite_values(w: &Vec<TelemetryData>) -> (vals: Vec<i64>)
    ensures
        vals@.len() == w@.len(),
        vals@.map_values(|x: i64| x as int) == w@.map_values(|d: TelemetryData| d@).map_values(
            |m: SampleModel| m.satellites as int,
        ),
        forall|j: int| 0 <= j < vals@.len() ==> 0 <= #[trigger] vals@[j] <= 255,
{
    let n = w.len();
    let mut vals: Vec<i64> = Vec::new();
    let mut i: usize = 0;
    while i < n
        invariant
            0 <= i <= n,
            vals@.len() == i,
            forall|j: int|
                0 <= j < i ==> #[trigger] vals@[j] as int == w@[j]@.satellites as int,
            forall|j: int| 0 <= j < i ==> 0 <= #[trigger] vals@[j] <= 255,
        decreases n - i,
    {
        vals.push(w[i].satellites as i64);
        i = i + 1;
    }
    proof {
        assert(vals@.map_values(|x: i64| x as int) =~= w@.map_values(
            |d: TelemetryData| d@,
        ).map_values(|m: SampleModel| m.satellites as int));
    }
    vals
}

/// Collect the signal strengths as wide integers.
#[verifier::loop_isolation(false)]
fn rssi_values(w: &Vec<TelemetryData>) -> (vals: Vec<i64>)
    ensures
        vals@.len() == w@.len(),
        vals@.map_values(|x: i64| x as int) == w@.map_values(|d: TelemetryData| d@).map_values(
            |m: SampleModel| m.rssi as int,
        ),
        forall|j: int| 0 <= j < vals@.len() ==> i32::MIN <= #[trigger] vals@[j] <= i32::MAX,
{
    let n = w.len();
    let mut vals: Vec<i64> = Vec::new();
    let mut i: usize = 0;
    while i < n
        invariant
            0 <= i <= n,
            vals@.len() == i,
            forall|j: int| 0 <= j < i ==> #[trigger] vals@[j] as int == w@[j]@.rssi as int,
            forall|j: int| 0 <= j < i ==> i32::MIN <= #[trigger] vals@[j] <= i32::MAX,
        decreases n - i,
    {
        vals.push(w[i].rssi as i64);
        i = i + 1;
    }
    proof {
        assert(vals@.map_values(|x: i64| x as int) =~= w@.map_values(
            |d: TelemetryData| d@,
        ).map_values(|m: SampleModel| m.rssi as int));
    }
    vals
}

/// Reduce a non-empty window into one aggregated sample.
pub fn reduce(w: &Vec<TelemetryData>) -> (r: TelemetryData)
    requires
        w@.len() > 0,
    ensures
        r@ == spec_reduce(w@.map_values(|d: TelemetryData| d@)),
{
    let ghost ws = w@.map_values(|d: TelemetryData| d@);
    let sat_vals = satellite_values(w);
    let sat_mode = mode_i64(&sat_vals);
    proof {
        let sm = sat_vals@.map_values(|x: i64| x as int);
        assert(sm.contains(sat_mode as int));
        let j = choose|j: int| 0 <= j < sm.len() && sm[j] == sat_mode as int;
        assert(sm[j] == sat_vals@[j] as int);
        assert(0 <= sat_mode <= 255);
    }
    let rssi_vals = rssi_values(w);
    let rssi_mode = mode_i64(&rssi_vals);
    proof {
        let rm = rssi_vals@.map_values(|x: i64| x as int);
        assert(rm.contains(rssi_mode as int));
        let j = choose|j: int| 0 <= j < rm.len() && rm[j] == rssi_mode as int;
        assert(rm[j] == rssi_vals@[j] as int);
        assert(i32::MIN <= rssi_mode <= i32::MAX);
    }
    let newest = &w[w.len() - 1];
    let r = TelemetryData {
        timestamp: newest.timestamp,
        iso_time: vstd::slice::slice_to_vec(newest.iso_time.as_slice()),
        acc_x: mean_channel_exec(w, Channel::AccX),
        acc_y: mean_channel_exec(w, Channel::AccY),
        acc_z: mean_channel_exec(w, Channel::AccZ),
        gyro_x: mean_channel_exec(w, Channel::GyroX),
        gyro_y: mean_channel_exec(w, Channel::GyroY),
        gyro_z: mean_channel_exec(w, Channel::GyroZ),
        mag_x: mean_channel_exec(w, Channel::MagX),
        mag_y: mean_channel_exec(w, Channel::MagY),
        mag_z: mean_channel_exec(w, Channel::MagZ),
        baro_press: mean_channel_exec(w, Channel::BaroPress),
        press: mean_channel_exec(w, Channel::Press),
        altitude: mean_channel_exec(w, Channel::Altitude),
        humidity: mean_channel_exec(w, Channel::Humidity),
        gps_lat: mean_channel_exec(w, Channel::GpsLat),
        gps_lon: mean_channel_exec(w, Channel::GpsLon),
        temp: mean_channel_exec(w, Channel::Temp),
        satellites: sat_mode as u8,
        rssi: rssi_mode as i32,
        snr: mean_channel_exec(w, Channel::Snr),
    };
    proof {
        assert(ws.last() == w@[w@.len() - 1]@);
        assert(r@ =~~= spec_reduce(ws));
    }
    r
}

/// Appending to a bounded FIFO: the oldest sample leaves when the window is
/// at capacity.
pub open spec fn spec_window_add(w: Seq<SampleModel>, cap: nat, s: SampleModel) -> Seq<
    SampleModel,
> {
    if w.len() < cap {
        w.push(s)
    } else {
        w.skip(1).push(s)
    }
}

/// A bounded FIFO of the most recent samples, reduced on a time cadence.
pub struct WindowedAggregator {
    window: Vec<TelemetryData>,
    capacity: usize,
    interval_ms: u64,
    last_emit: u64,
}

impl WindowedAggregator {
    /// The samples currently buffered, oldest first.
    pub closed spec fn window(&self) -> Seq<SampleModel> {
        self.window@.map_values(|d: TelemetryData| d@)
    }

    /// The fixed window capacity `W`.
    pub closed spec fn cap(&self) -> nat {
        self.capacity as nat
    }

    /// The emission interval in milliseconds.
    pub closed spec fn interval(&self) -> u64 {
        self.interval_ms
    }

    /// When the aggregator last emitted (or was created).
    pub closed spec fn last_emitted(&self) -> u64 {
        self.last_emit
    }

    /// The standing invariant: the window never outgrows its capacity.
    pub open spec fn wf(&self) -> bool {
        self.window().len() <= self.cap() && self.cap() > 0
    }

    /// A fresh aggregator; the emission clock starts at `now_ms`.
    pub fn new(capacity: usize, interval_ms: u64, now_ms: u64) -> (a: WindowedAggregator)
        requires
            capacity > 0,
        ensures
            a.wf(),
            a.window() == Seq::<SampleModel>::empty(),
            a.cap() == capacity as nat,
            a.interval() == interval_ms,
            a.last_emitted() == now_ms,
    {
        let a = WindowedAggregator { window: Vec::new(), capacity, interval_ms, last_emit: now_ms };
        proof {
            assert(a.window() =~= Seq::<SampleModel>::empty());
        }
        a
    }

    /// Append one sample, evicting the oldest when the window is full, and
    /// emit the reduction of the updated window once the emission interval
    /// has elapsed.  Emitting resets the clock; the window keeps sliding.
    pub fn add(&mut self, sample: TelemetryData, now_ms: u64) -> (r: Option<TelemetryData>)
        requires
            old(self).wf(),
        ensures
            ({
                let w1 = spec_window_add(old(self).window(), old(self).cap(), sample@);
                &&& final(self).wf()
                &&& final(self).cap() == old(self).cap()
                &&& final(self).interval() == old(self).interval()
                &&& final(self).window() == w1
                &&& (now_ms as int >= old(self).last_emitted() + old(self).interval() ==> {
                    &&& final(self).last_emitted() == now_ms
                    &&& r is Some
                    &&& Some(r->Some_0@) == Some(spec_reduce(w1))
                })
                &&& ((now_ms as int) < old(self).last_emitted() + old(self).interval() ==> {
                    &&& final(self).last_emitted() == old(self).last_emitted()
                    &&& r is None
                })
            }),
    {
        let ghost w0 = self.window();
        if self.window.len() == self.capacity {
            let _evicted = self.window.remove(0);
            proof {
                assert(self.window@.map_values(|d: TelemetryData| d@) =~= w0.skip(1));
            }
        }
        self.window.push(sample);
        proof {
            if w0.len() < old(self).cap() {
                assert(self.window() =~= w0.push(sample@));
            } else {
                assert(self.window() =~= w0.skip(1).push(sample@));
            }
        }
        if now_ms >= self.last_emit && now_ms - self.last_emit >= self.interval_ms {
            self.last_emit = now_ms;
            let out = reduce(&self.window);
            Some(out)
        } else {
            None
        }
    }
}

} // verus!
