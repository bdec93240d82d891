use telemetry_stream::accumulator::{FrameAccumulator, FramingMode};
use telemetry_stream::controller::{Directive, ReadEvent, StreamSession};
use telemetry_stream::correlator::MetadataCorrelator;
use telemetry_stream::decode::Variant;
use telemetry_stream::sequencer::Sequencer;

// A frame split arbitrarily across reads comes out exactly once, identical
// to delivering it whole.
#[test]
fn accumulator_split_invariance() {
    let frame: &[u8] = b"[timestamp:1000,acc_x:2.50],rssi:-55\x0a518";
    assert_eq!(frame.len(), 40);

    let mut whole = FrameAccumulator::new(FramingMode::Bracketed, 4096);
    let frames_whole = whole.feed(frame);

    let mut split = FrameAccumulator::new(FramingMode::Bracketed, 4096);
    let mut frames_split = split.feed(&frame[..10]);
    frames_split.extend(split.feed(&frame[10..15]));
    frames_split.extend(split.feed(&frame[15..]));

    assert_eq!(frames_whole.len(), 1);
    assert_eq!(frames_whole, frames_split);
    assert_eq!(frames_whole[0], b"[timestamp:1000,acc_x:2.50],rssi:-55".to_vec());
}

// A bare bracketed frame is held back until the byte after the bracket
// shows that no metadata suffix follows.
#[test]
fn accumulator_waits_for_suffix_evidence() {
    let mut acc = FrameAccumulator::new(FramingMode::Bracketed, 4096);
    assert_eq!(acc.feed(b"[x:1]").len(), 0);
    let frames = acc.feed(b"[y:2]");
    assert_eq!(frames.len(), 1);
    assert_eq!(frames[0], b"[x:1]".to_vec());
}

// Line framing slices at every line feed and drops the terminator.
#[test]
fn accumulator_lines() {
    let mut acc = FrameAccumulator::new(FramingMode::Lines, 4096);
    let frames = acc.feed(b"alpha\x0abeta\x0agam");
    assert_eq!(frames.len(), 2);
    assert_eq!(frames[0], b"alpha".to_vec());
    assert_eq!(frames[1], b"beta".to_vec());
    let more = acc.feed(b"ma\x0a");
    assert_eq!(more.len(), 1);
    assert_eq!(more[0], b"gamma".to_vec());
}

// Unterminated data beyond the cap is dropped whole and counted once, and
// the stream then resynchronizes.
#[test]
fn accumulator_overflow_resync() {
    let mut acc = FrameAccumulator::new(FramingMode::Lines, 8);
    let frames = acc.feed(b"0123456789abcdef");
    assert_eq!(frames.len(), 0);
    assert_eq!(acc.overflow_events(), 1);
    let frames2 = acc.feed(b"ok\x0a");
    assert_eq!(frames2.len(), 1);
    assert_eq!(frames2[0], b"ok".to_vec());
    assert_eq!(acc.overflow_events(), 1);
}

// Message, RSSI and Snr lines in order yield one sample carrying that
// metadata; an Snr line alone yields nothing.
#[test]
fn correlator_triple() {
    let mut c = MetadataCorrelator::new(Variant::KeyValue);
    assert!(c.push_line(b"Message: [timestamp:5,temp:1.5]").is_none());
    assert!(c.push_line(b"RSSI: -60").is_none());
    let sample = c.push_line(b"Snr: 10.0").expect("triple completes");
    assert_eq!(sample.rssi, -60);
    assert_eq!(sample.snr, 10_000_000);
    assert_eq!(sample.temp, 1_500_000);
    assert_eq!(sample.timestamp, 5);

    let mut lone = MetadataCorrelator::new(Variant::KeyValue);
    assert!(lone.push_line(b"Snr: 10.0").is_none());
}

// An RSSI update may arrive more than once before the noise line; the last
// one wins, and a new message discards stale readiness.
#[test]
fn correlator_updates() {
    let mut c = MetadataCorrelator::new(Variant::KeyValue);
    assert!(c.push_line(b"RSSI: -10").is_none());
    assert!(c.push_line(b"Snr: 1.0").is_none());
    assert!(c.push_line(b"Message: [temp:2.0]").is_none());
    assert!(c.push_line(b"RSSI: -20").is_none());
    assert!(c.push_line(b"RSSI: -30").is_none());
    let s = c.push_line(b"Snr: 4.5").expect("emits");
    assert_eq!(s.rssi, -30);
    assert_eq!(s.snr, 4_500_000);
    assert!(c.push_line(b"Snr: 4.5").is_none());
}

// Identifiers are handed out consecutively starting at 1.
#[test]
fn sequencer_consecutive() {
    let mut s = Sequencer::new();
    assert_eq!(s.next_id(), 1);
    assert_eq!(s.next_id(), 2);
    assert_eq!(s.next_id(), 3);
    assert_eq!(s.last_issued(), 3);
}

// Three successful emissions carry ids exactly 1, 2, 3, with no gap for
// the dropped junk line and the desynchronized noise reading in between.
#[test]
fn session_sequence_ids() {
    let mut s = StreamSession::new(Variant::KeyValue, 10, 0, 4096, 0);
    let bytes = b"Message: [timestamp:1000,acc_x:1.0]\x0aRSSI: -40\x0aSnr: 1.0\x0anoise line\x0aSnr: 9.9\x0aMessage: [timestamp:2000,acc_x:2.0]\x0aRSSI: -41\x0aSnr: 2.0\x0aMessage: [timestamp:3000,acc_x:3.0]\x0aRSSI: -42\x0aSnr: 3.0\x0a".to_vec();
    let (packets, directive) = s.step(false, ReadEvent::Data(bytes), 50);
    assert_eq!(directive, Directive::Continue);
    assert_eq!(packets.len(), 3);
    assert_eq!(packets[0].id, 1);
    assert_eq!(packets[1].id, 2);
    assert_eq!(packets[2].id, 3);
    // The window slides: means over [1], [1,2] and [1,2,3].
    assert_eq!(packets[0].acceleration_x, 1_000_000);
    assert_eq!(packets[1].acceleration_x, 1_500_000);
    assert_eq!(packets[2].acceleration_x, 2_000_000);
    // Signal strength is mode-reduced, ties to the lowest value.
    assert_eq!(packets[0].rssi, -40);
    assert_eq!(packets[1].rssi, -41);
    assert_eq!(packets[2].rssi, -42);
}

// Setting the stop flag exits at the next step with nothing emitted,
// whatever the read returned.
#[test]
fn session_cancellation() {
    let mut s = StreamSession::new(Variant::CsvInlineRssi, 10, 0, 4096, 0);
    let (packets, directive) = s.step(
        true,
        ReadEvent::Data(b"[timestamp:1000],rssi:-40\x0a".to_vec()),
        10,
    );
    assert_eq!(directive, Directive::Exit);
    assert_eq!(packets.len(), 0);
    let (p2, d2) = s.step(false, ReadEvent::Timeout, 20);
    assert_eq!(d2, Directive::Sleep);
    assert_eq!(p2.len(), 0);
    let (p3, d3) = s.step(false, ReadEvent::Fatal, 30);
    assert_eq!(d3, Directive::Exit);
    assert_eq!(p3.len(), 0);
}

// The line-framed session drives the correlator: one triple, one packet.
#[test]
fn session_line_framing() {
    let mut s = StreamSession::new(Variant::KeyValue, 10, 0, 4096, 0);
    let bytes = b"Message: [timestamp:60000,gyro_x:1.5]\x0aRSSI: -33\x0aSnr: 2.5\x0a".to_vec();
    let (packets, directive) = s.step(false, ReadEvent::Data(bytes), 10);
    assert_eq!(directive, Directive::Continue);
    assert_eq!(packets.len(), 1);
    assert_eq!(packets[0].id, 1);
    assert_eq!(packets[0].rssi, -33);
    assert_eq!(packets[0].velocity_x, 1_500_000);
    assert_eq!(packets[0].pitch, 1_500_000);
    assert_eq!(packets[0].mission_time, b"60".to_vec());
    assert_eq!(packets[0].minute, 1);
    assert_eq!(packets[0].second, 0);
}
