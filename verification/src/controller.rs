//! The cooperative streaming loop, as a pure step machine: every read-cycle
//! decision — feed the accumulator, decode each frame, aggregate, sequence —
//! is a function from session state and read event to new state, emitted
//! packets and a directive.  The caller owns the blocking read, the sleep
//! and the delivery; the logic here is verified for every event order.

use vstd::prelude::*;
use crate::accumulator::{spec_feed, FrameAccumulator, FramingMode};
use crate::correlator::{corr_step, CorrModel, CorrState, MetadataCorrelator};
use crate::decode::{decode_frame, spec_decode_frame, Variant};
use crate::sample::{convert_to_packet, spec_convert, PacketModel, SampleModel, TelemetryPacket};
use crate::sequencer::Sequencer;
use crate::window::{spec_reduce, spec_window_add, WindowedAggregator};

verus! {

/// What one blocking read yielded.
pub enum ReadEvent {
    /// Bytes arrived.
    Data(Vec<u8>),
    /// The read timed out with nothing to deliver: expected, not an error.
    Timeout,
    /// The byte source failed for good (device gone).
    Fatal,
}

/// What the caller should do next.
#[derive(Clone, Copy, Debug, PartialEq, Eq, Structural)]
pub enum Directive {
    /// Keep reading.
    Continue,
    /// Back off briefly, then keep reading.
    Sleep,
    /// Leave the loop; the session is over.
    Exit,
}

/// The decoding-and-aggregation half of the session state.
#[verifier::ext_equal]
pub ghost struct PipeState {
    pub corr: CorrModel,
    pub window: Seq<SampleModel>,
    pub last_emit: u64,
    pub count: u32,
}

/// The whole session state: buffered bytes, overflow events, pipeline.
#[verifier::ext_equal]
pub ghost struct SessionModel {
    pub buffer: Seq<u8>,
    pub overflows: u64,
    pub pipe: PipeState,
}

/// One decoded sample runs through the window and, on the emission cadence,
/// through the sequencer.  Identifiers move only when a packet leaves; in
/// the unreachable case of an exhausted identifier space the aggregate is
/// dropped rather than an identifier reused.
pub open spec fn spec_push_sample(
    p: PipeState,
    cap: nat,
    interval: u64,
    s: SampleModel,
    now: u64,
) -> (PipeState, Option<PacketModel>) {
    let w1 = spec_window_add(p.window, cap, s);
    if now as int >= p.last_emit + interval {
        if p.count < u32::MAX {
            (
                PipeState { window: w1, last_emit: now, count: (p.count + 1) as u32, ..p },
                Some(spec_convert(spec_reduce(w1), (p.count + 1) as u32)),
            )
        } else {
            (PipeState { window: w1, last_emit: now, ..p }, None)
        }
    } else {
        (PipeState { window: w1, ..p }, None)
    }
}

/// One extracted frame runs through the correlator (line framing) or
/// straight into the decoder (bracketed framing); a decoded sample then
/// follows `spec_push_sample`, and a frame that yields no sample is dropped
/// in silence.
#[verifier::opaque]
pub open spec fn spec_frame_step(
    p: PipeState,
    mode: FramingMode,
    v: Variant,
    cap: nat,
    interval: u64,
    frame: Seq<u8>,
    now: u64,
) -> (PipeState, Option<PacketModel>) {
    match mode {
        FramingMode::Lines => {
            let r = corr_step(p.corr, frame, v);
            let p1 = PipeState { corr: r.0, ..p };
            match r.1 {
                Some(s) => spec_push_sample(p1, cap, interval, s, now),
                None => (p1, None),
            }
        },
        FramingMode::Bracketed => {
            match spec_decode_frame(v, frame, -100i32, 0) {
                Some(s) => spec_push_sample(p, cap, interval, s, now),
                None => (p, None),
            }
        },
    }
}

/// All frames of one read, oldest first.
pub open spec fn spec_frames_fold(
    p: PipeState,
    mode: FramingMode,
    v: Variant,
    cap: nat,
    interval: u64,
    frames: Seq<Seq<u8>>,
    now: u64,
) -> (PipeState, Seq<PacketModel>)
    decreases frames.len(),
{
    if frames.len() == 0 {
        (p, Seq::<PacketModel>::empty())
    } else {
        let first = spec_frame_step(p, mode, v, cap, interval, frames[0], now);
        let rest = spec_frames_fold(first.0, mode, v, cap, interval, frames.skip(1), now);
        (
            rest.0,
            match first.1 {
                Some(pk) => seq![pk] + rest.1,
                None => rest.1,
            },
        )
    }
}

/// A single frame moves the emission counter by at most one, and by
/// exactly one just when a packet leaves, which then carries the
/// post-increment counter as its identifier.
proof fn lemma_frame_step_count(
    p: PipeState,
    mode: FramingMode,
    v: Variant,
    cap: nat,
    interval: u64,
    frame: Seq<u8>,
    now: u64,
)
    requires
        p.count < u32::MAX,
    ensures
        ({
            let r = spec_frame_step(p, mode, v, cap, interval, frame, now);
            &&& p.count <= r.0.count <= p.count + 1
            &&& (r.1 is Some <==> r.0.count == p.count + 1)
            &&& (r.1 is Some ==> r.1->Some_0.id == p.count + 1)
        }),
{
    reveal(spec_frame_step);
}

/// Sequence identifiers are consecutive, with no gaps and no reuse: if the
/// pipeline enters a read with counter `c`, the packets that leave while
/// its frames are folded carry exactly the identifiers c+1, c+2, ... in
/// order — from a fresh session, 1, 2, 3 — however many malformed frames
/// were dropped in between.
pub proof fn lemma_fold_ids_consecutive(
    p: PipeState,
    mode: FramingMode,
    v: Variant,
    cap: nat,
    interval: u64,
    frames: Seq<Seq<u8>>,
    now: u64,
)
    requires
        p.count + frames.len() <= u32::MAX,
    ensures
        ({
            let r = spec_frames_fold(p, mode, v, cap, interval, frames, now);
            &&& p.count <= r.0.count
            &&& r.1.len() == r.0.count - p.count
            &&& forall|j: int| 0 <= j < r.1.len() ==> #[trigger] r.1[j].id == p.count + 1 + j
        }),
    decreases frames.len(),
{
    if frames.len() > 0 {
        lemma_frame_step_count(p, mode, v, cap, interval, frames[0], now);
        let first = spec_frame_step(p, mode, v, cap, interval, frames[0], now);
        lemma_fold_ids_consecutive(first.0, mode, v, cap, interval, frames.skip(1), now);
        let rest = spec_frames_fold(first.0, mode, v, cap, interval, frames.skip(1), now);
        match first.1 {
            Some(pk) => {
                assert(forall|j: int|
                    1 <= j < rest.1.len() + 1 ==> (seq![pk] + rest.1)[j] == rest.1[j - 1]);
            },
            None => {},
        }
    }
}

/// One whole step of the controller.  The stop flag wins over everything
/// and exits cleanly; a timeout asks for a short sleep; a fatal read error
/// exits; data is fed through accumulator and pipeline.
pub open spec fn spec_session_data_step(
    m: SessionModel,
    mode: FramingMode,
    v: Variant,
    cap: nat,
    interval: u64,
    max_buf: nat,
    bytes: Seq<u8>,
    now: u64,
) -> (SessionModel, Seq<PacketModel>) {
    let fed = spec_feed(mode, m.buffer, bytes, max_buf, m.overflows);
    let folded = spec_frames_fold(m.pipe, mode, v, cap, interval, fed.0, now);
    (SessionModel { buffer: fed.1, overflows: fed.2, pipe: folded.0 }, folded.1)
}

/// One telemetry session: accumulator, correlator, window and sequencer,
/// driven by read events that the caller obtains from the byte source.
pub struct StreamSession {
    acc: FrameAccumulator,
    corr: MetadataCorrelator,
    agg: WindowedAggregator,
    seq: Sequencer,
    variant: Variant,
}

impl StreamSession {
    /// The session state as one mathematical value.
    pub closed spec fn model(&self) -> SessionModel {
        SessionModel {
            buffer: self.acc.buffer(),
            overflows: self.acc.overflows(),
            pipe: PipeState {
                corr: self.corr@,
                window: self.agg.window(),
                last_emit: self.agg.last_emitted(),
                count: self.seq.current(),
            },
        }
    }

    /// The configured wire-format variant.
    pub closed spec fn variant(&self) -> Variant {
        self.variant
    }

    /// The framing the variant implies: the inline variant frames by
    /// brackets, the others by lines.
    pub closed spec fn framing(&self) -> FramingMode {
        self.acc.framing()
    }

    /// The window capacity `W`.
    pub closed spec fn cap(&self) -> nat {
        self.agg.cap()
    }

    /// The emission interval in milliseconds.
    pub closed spec fn interval(&self) -> u64 {
        self.agg.interval()
    }

    /// The buffer cap that forces resynchronization.
    pub closed spec fn max_buf(&self) -> nat {
        self.acc.capacity()
    }

    /// The standing invariant of a session.
    pub closed spec fn wf(&self) -> bool {
        &&& self.acc.wf()
        &&& self.agg.wf()
        &&& self.corr.variant() == self.variant()
        &&& (self.framing() == (match self.variant() {
            Variant::CsvInlineRssi => FramingMode::Bracketed,
            Variant::TimestampedCsv => FramingMode::Lines,
            Variant::KeyValue => FramingMode::Lines,
        }))
    }

    /// A fresh session on an open channel.  The emission clock starts at
    /// `now_ms`; `window_cap` is the aggregation window size `W` and
    /// `max_buf` caps the raw buffer before forced resynchronization.
    pub fn new(variant: Variant, window_cap: usize, interval_ms: u64, max_buf: usize, now_ms: u64) -> (s:
        StreamSession)
        requires
            window_cap > 0,
        ensures
            s.wf(),
            s.variant() == variant,
            s.cap() == window_cap as nat,
            s.interval() == interval_ms,
            s.max_buf() == max_buf as nat,
            s.model() == (SessionModel {
                buffer: Seq::<u8>::empty(),
                overflows: 0,
                pipe: PipeState {
                    corr: CorrModel {
                        state: CorrState::WaitingMessage,
                        pending: Seq::<u8>::empty(),
                        rssi: 0,
                    },
                    window: Seq::<SampleModel>::empty(),
                    last_emit: now_ms,
                    count: 0,
                },
            }),
    {
        let mode = match variant {
            Variant::CsvInlineRssi => FramingMode::Bracketed,
            Variant::TimestampedCsv => FramingMode::Lines,
            Variant::KeyValue => FramingMode::Lines,
        };
        let s = StreamSession {
            acc: FrameAccumulator::new(mode, max_buf),
            corr: MetadataCorrelator::new(variant),
            agg: WindowedAggregator::new(window_cap, interval_ms, now_ms),
            seq: Sequencer::new(),
            variant,
        };
        proof {
            assert(s.model() =~~= (SessionModel {
                buffer: Seq::<u8>::empty(),
                overflows: 0,
                pipe: PipeState {
                    corr: CorrModel {
                        state: CorrState::WaitingMessage,
                        pending: Seq::<u8>::empty(),
                        rssi: 0,
                    },
                    window: Seq::<SampleModel>::empty(),
                    last_emit: now_ms,
                    count: 0,
                },
            }));
        }
        s
    }

    /// Push one decoded sample through window and sequencer.
    fn push_sample(&mut self, sample: crate::sample::TelemetryData, now_ms: u64) -> (r: Option<
        TelemetryPacket,
    >)
        requires
            old(self).wf(),
        ensures
            final(self).wf(),
            final(self).variant() == old(self).variant(),
            final(self).framing() == old(self).framing(),
            final(self).cap() == old(self).cap(),
            final(self).interval() == old(self).interval(),
            final(self).max_buf() == old(self).max_buf(),
            final(self).model().buffer == old(self).model().buffer,
            final(self).model().overflows == old(self).model().overflows,
            ({
                let r0 = spec_push_sample(
                    old(self).model().pipe,
                    old(self).cap(),
                    old(self).interval(),
                    sample@,
                    now_ms,
                );
                &&& final(self).model().pipe == r0.0
                &&& (r is Some <==> r0.1 is Some)
                &&& (r is Some ==> Some(r->Some_0@) == r0.1)
            }),
    {
        match self.agg.add(sample, now_ms) {
            Some(agg_sample) => {
                if self.seq.last_issued() < u32::MAX {
                    let id = self.seq.next_id();
                    let pk = convert_to_packet(&agg_sample, id);
                    proof {
                        assert(self.model().pipe =~~= spec_push_sample(
                            old(self).model().pipe,
                            old(self).cap(),
                            old(self).interval(),
                            sample@,
                            now_ms,
                        ).0);
                    }
                    Some(pk)
                } else {
                    proof {
                        assert(self.model().pipe =~~= spec_push_sample(
                            old(self).model().pipe,
                            old(self).cap(),
                            old(self).interval(),
                            sample@,
                            now_ms,
                        ).0);
                    }
                    None
                }
            },
            None => {
                proof {
                    assert(self.model().pipe =~~= spec_push_sample(
                        old(self).model().pipe,
                        old(self).cap(),
                        old(self).interval(),
                        sample@,
                        now_ms,
                    ).0);
                }
                None
            },
        }
    }

    /// Run one extracted frame through correlator/decoder, window and
    /// sequencer.
    fn process_frame(&mut self, frame: &[u8], now_ms: u64) -> (r: Option<TelemetryPacket>)
        requires
            old(self).wf(),
        ensures
            final(self).wf(),
            final(self).variant() == old(self).variant(),
            final(self).framing() == old(self).framing(),
            final(self).cap() == old(self).cap(),
            final(self).interval() == old(self).interval(),
            final(self).max_buf() == old(self).max_buf(),
            final(self).model().buffer == old(self).model().buffer,
            final(self).model().overflows == old(self).model().overflows,
            ({
                let s = spec_frame_step(
                    old(self).model().pipe,
                    old(self).framing(),
                    old(self).variant(),
                    old(self).cap(),
                    old(self).interval(),
                    frame@,
                    now_ms,
                );
                &&& final(self).model().pipe == s.0
                &&& (r is Some <==> s.1 is Some)
                &&& (r is Some ==> Some(r->Some_0@) == s.1)
            }),
    {
        proof {
            reveal(spec_frame_step);
        }
        let emitted: Option<crate::sample::TelemetryData> = match self.acc_mode() {
            FramingMode::Lines => self.corr.push_line(frame),
            FramingMode::Bracketed => decode_frame(self.variant, frame, -100, 0),
        };
        match emitted {
            Some(sample) => self.push_sample(sample, now_ms),
            None => {
                proof {
                    assert(self.model().pipe =~~= spec_frame_step(
                        old(self).model().pipe,
                        old(self).framing(),
                        old(self).variant(),
                        old(self).cap(),
                        old(self).interval(),
                        frame@,
                        now_ms,
                    ).0);
                }
                None
            },
        }
    }

    /// One read cycle.  Observing the stop flag exits at once with nothing
    /// emitted, whatever the event carried — cancellation is checked once
    /// per iteration, so it takes effect within one read timeout.  A
    /// timeout sleeps and retries; a fatal error exits; data runs through
    /// the whole pipeline and yields the packets in arrival order.
    pub fn step(&mut self, stop: bool, event: ReadEvent, now_ms: u64) -> (out: (
        Vec<TelemetryPacket>,
        Directive,
    ))
        requires
            old(self).wf(),
        ensures
            final(self).wf(),
            final(self).variant() == old(self).variant(),
            final(self).framing() == old(self).framing(),
            final(self).cap() == old(self).cap(),
            final(self).interval() == old(self).interval(),
            final(self).max_buf() == old(self).max_buf(),
            stop ==> final(self).model() == old(self).model() && out.0@.len() == 0 && out.1
                == Directive::Exit,
            !stop && event is Timeout ==> final(self).model() == old(self).model() && out.0@.len()
                == 0 && out.1 == Directive::Sleep,
            !stop && event is Fatal ==> final(self).model() == old(self).model() && out.0@.len()
                == 0 && out.1 == Directive::Exit,
            !stop && event is Data ==> ({
                let r = spec_session_data_step(
                    old(self).model(),
                    old(self).framing(),
                    old(self).variant(),
                    old(self).cap(),
                    old(self).interval(),
                    old(self).max_buf(),
                    event->Data_0@,
                    now_ms,
                );
                &&& final(self).model() == r.0
                &&& out.0@.map_values(|p: TelemetryPacket| p@) == r.1
                &&& out.1 == Directive::Continue
            }),
    {
        if stop {
            return (Vec::new(), Directive::Exit);
        }
        match event {
            ReadEvent::Timeout => (Vec::new(), Directive::Sleep),
            ReadEvent::Fatal => (Vec::new(), Directive::Exit),
            ReadEvent::Data(bytes) => {
                let ghost m0 = self.model();
                let ghost mode = self.framing();
                let ghost v = self.variant();
                let ghost cap = self.cap();
                let ghost interval = self.interval();
                let frames = self.acc.feed(bytes.as_slice());
                let ghost fseq = frames@.map_values(|f: Vec<u8>| f@);
                let ghost fed = spec_feed(mode, m0.buffer, bytes@, old(self).max_buf(), m0.overflows);
                let mut packets: Vec<TelemetryPacket> = Vec::new();
                let n = frames.len();
                let mut i: usize = 0;
                proof {
                    assert(fseq.skip(0) =~~= fseq);
                    assert(packets@.map_values(|p: TelemetryPacket| p@) =~= Seq::<
                        PacketModel,
                    >::empty());
                    assert(Seq::<PacketModel>::empty() + spec_frames_fold(
                        m0.pipe,
                        mode,
                        v,
                        cap,
                        interval,
                        fseq,
                        now_ms,
                    ).1 =~~= spec_frames_fold(m0.pipe, mode, v, cap, interval, fseq, now_ms).1);
                }
                while i < n
                    invariant
                        0 <= i <= n,
                        n == frames@.len(),
                        self.wf(),
                        self.variant() == old(self).variant(),
                        self.framing() == old(self).framing(),
                        self.cap() == old(self).cap(),
                        self.interval() == old(self).interval(),
                        self.max_buf() == old(self).max_buf(),
                        mode == old(self).framing(),
                        v == old(self).variant(),
                        cap == old(self).cap(),
                        interval == old(self).interval(),
                        fseq == frames@.map_values(|f: Vec<u8>| f@),
                        self.model().buffer == fed.1,
                        self.model().overflows == fed.2,
                        ({
                            let whole = spec_frames_fold(
                                m0.pipe,
                                mode,
                                v,
                                cap,
                                interval,
                                fseq,
                                now_ms,
                            );
                            let rem = spec_frames_fold(
                                self.model().pipe,
                                mode,
                                v,
                                cap,
                                interval,
                                fseq.skip(i as int),
                                now_ms,
                            );
                            whole.0 == rem.0 && whole.1 =~~= packets@.map_values(
                                |p: TelemetryPacket| p@,
                            ) + rem.1
                        }),
                    decreases n - i,
                {
                    let ghost pipe_before = self.model().pipe;
                    let ghost rem_before = fseq.skip(i as int);
                    proof {
                        assert(rem_before[0] == fseq[i as int]);
                        assert(rem_before.skip(1) =~~= fseq.skip(i + 1));
                    }
                    let pk = self.process_frame(frames[i].as_slice(), now_ms);
                    let ghost step1 = spec_frame_step(
                        pipe_before,
                        mode,
                        v,
                        cap,
                        interval,
                        fseq[i as int],
                        now_ms,
                    );
                    match pk {
                        Some(p) => {
                            let ghost old_pk = packets@;
                            packets.push(p);
                            proof {
                                let f = |q: TelemetryPacket| q@;
                                let rem_after = spec_frames_fold(
                                    self.model().pipe,
                                    mode,
                                    v,
                                    cap,
                                    interval,
                                    fseq.skip(i + 1),
                                    now_ms,
                                ).1;
                                assert(packets@.map_values(f) =~~= old_pk.map_values(f).push(p@));
                                assert(old_pk.map_values(f) + (seq![p@] + rem_after)
                                    =~~= packets@.map_values(f) + rem_after);
                            }
                        },
                        None => {},
                    }
                    i = i + 1;
                }
                proof {
                    assert(fseq.skip(n as int) =~~= Seq::<Seq<u8>>::empty());
                    let rem = spec_frames_fold(
                        self.model().pipe,
                        mode,
                        v,
                        cap,
                        interval,
                        fseq.skip(n as int),
                        now_ms,
                    );
                    assert(rem.1 =~~= Seq::<PacketModel>::empty());
                    assert(packets@.map_values(|p: TelemetryPacket| p@) + Seq::<
                        PacketModel,
                    >::empty() =~~= packets@.map_values(|p: TelemetryPacket| p@));
                }
                (packets, Directive::Continue)
            },
        }
    }

    /// The framing mode, for dispatch inside a step.
    fn acc_mode(&self) -> (m: FramingMode)
        requires
            self.wf(),
        ensures
            m == self.framing(),
    {
        match self.variant {
            Variant::CsvInlineRssi => FramingMode::Bracketed,
            Variant::TimestampedCsv => FramingMode::Lines,
            Variant::KeyValue => FramingMode::Lines,
        }
    }

    /// How many buffer overflows forced a resynchronization.
    pub fn overflow_events(&self) -> (c: u64)
        ensures
            c == self.model().overflows,
    {
        self.acc.overflow_events()
    }
}

} // verus!
