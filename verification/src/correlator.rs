//! Metadata correlation: a frame body arrives as a `Message:` line, and its
//! signal quality follows on separate `RSSI:` and `Snr:` lines.  A small
//! state machine pairs the three before the frame is decoded.

use vstd::prelude::*;
use crate::decode::{decode_frame, spec_decode_frame, Variant};
use crate::fixedpoint::{
    is_prefix, parse_decimal_micro, parse_i32, spec_decimal_micro, spec_signed_int, spec_trim,
    starts_with, trim_bytes,
};
use crate::sample::{SampleModel, TelemetryData};

verus! {

/// Where the correlator stands between lines.
#[derive(Clone, Copy, Debug, PartialEq, Eq, Structural)]
pub enum CorrState {
    /// Nothing buffered yet.
    WaitingMessage,
    /// A message body is buffered, no signal strength yet.
    HaveMessage,
    /// A message body and a signal strength are buffered.
    HaveRssi,
}

/// The mathematical state of a correlator.
#[verifier::ext_equal]
pub ghost struct CorrModel {
    pub state: CorrState,
    pub pending: Seq<u8>,
    pub rssi: i32,
}

pub open spec fn msg_prefix() -> Seq<u8> {
    seq!['M' as u8, 'e' as u8, 's' as u8, 's' as u8, 'a' as u8, 'g' as u8, 'e' as u8, ':' as u8, ' ' as u8]
}

pub open spec fn rssi_prefix() -> Seq<u8> {
    seq!['R' as u8, 'S' as u8, 'S' as u8, 'I' as u8, ':' as u8, ' ' as u8]
}

pub open spec fn snr_prefix() -> Seq<u8> {
    seq!['S' as u8, 'n' as u8, 'r' as u8, ':' as u8, ' ' as u8]
}

/// A parsed `RSSI:` value, when the text is a signed integer in range.
pub open spec fn spec_rssi_value(txt: Seq<u8>) -> Option<i32> {
    if spec_signed_int(txt) is Some && i32::MIN <= spec_signed_int(txt)->Some_0 <= i32::MAX {
        Some(spec_signed_int(txt)->Some_0 as i32)
    } else {
        None
    }
}

/// What one line does to the correlator, and what it emits.
///
/// A `Message:` line buffers its body and forgets any earlier readiness.  An
/// `RSSI:` line records the strength once a message is pending; without one
/// it is dropped.  An `Snr:` line completes the triple only from the
/// ready state: the pending body is decoded under the session variant and
/// the machine resets, whether or not the decode produced a sample.  An
/// `Snr:` line in any other state, an unparsable value, or an unrecognized
/// line changes nothing (dropped as malformed).
pub open spec fn corr_step(m: CorrModel, line: Seq<u8>, v: Variant) -> (CorrModel, Option<
    SampleModel,
>) {
    if is_prefix(msg_prefix(), line) {
        (
            CorrModel {
                state: CorrState::HaveMessage,
                pending: spec_trim(line.skip(9)),
                rssi: m.rssi,
            },
            None,
        )
    } else if is_prefix(rssi_prefix(), line) {
        match spec_rssi_value(spec_trim(line.skip(6))) {
            Some(r) => if m.state is HaveMessage || m.state is HaveRssi {
                (CorrModel { state: CorrState::HaveRssi, pending: m.pending, rssi: r }, None)
            } else {
                (m, None)
            },
            None => (m, None),
        }
    } else if is_prefix(snr_prefix(), line) {
        match spec_decimal_micro(spec_trim(line.skip(5))) {
            Some(s) => if m.state is HaveRssi {
                (
                    CorrModel {
                        state: CorrState::WaitingMessage,
                        pending: Seq::<u8>::empty(),
                        rssi: m.rssi,
                    },
                    spec_decode_frame(v, m.pending, m.rssi, s as i64),
                )
            } else {
                (m, None)
            },
            None => (m, None),
        }
    } else {
        (m, None)
    }
}

/// Feeding a message line, then a signal-strength line, then a noise line
/// emits exactly one decode of that message under the correlated metadata,
/// and leaves the machine reset — for every message body and every parsable
/// metadata text, from any starting state.
pub proof fn lemma_correlator_triple(
    m0: CorrModel,
    v: Variant,
    body: Seq<u8>,
    rt: Seq<u8>,
    st: Seq<u8>,
)
    requires
        spec_rssi_value(spec_trim(rt)) is Some,
        spec_decimal_micro(spec_trim(st)) is Some,
    ensures
        ({
            let l1 = msg_prefix() + body;
            let l2 = rssi_prefix() + rt;
            let l3 = snr_prefix() + st;
            let s1 = corr_step(m0, l1, v).0;
            let s2 = corr_step(s1, l2, v).0;
            let r3 = corr_step(s2, l3, v);
            &&& corr_step(m0, l1, v).1 is None
            &&& corr_step(s1, l2, v).1 is None
            &&& r3.1 == spec_decode_frame(
                v,
                spec_trim(body),
                spec_rssi_value(spec_trim(rt))->Some_0,
                spec_decimal_micro(spec_trim(st))->Some_0 as i64,
            )
            &&& r3.0.state is WaitingMessage
        }),
{
    let l1 = msg_prefix() + body;
    let l2 = rssi_prefix() + rt;
    let l3 = snr_prefix() + st;
    assert(is_prefix(msg_prefix(), l1)) by {
        assert(l1.take(9) =~= msg_prefix());
    }
    assert(l1.skip(9) =~= body);
    let s1 = corr_step(m0, l1, v).0;
    assert(!is_prefix(msg_prefix(), l2)) by {
        if is_prefix(msg_prefix(), l2) {
            assert(l2.take(9)[0] == 'R' as u8);
            assert(msg_prefix()[0] == 'M' as u8);
        }
    }
    assert(is_prefix(rssi_prefix(), l2)) by {
        assert(l2.take(6) =~= rssi_prefix());
    }
    assert(l2.skip(6) =~= rt);
    let s2 = corr_step(s1, l2, v).0;
    assert(!is_prefix(msg_prefix(), l3)) by {
        if is_prefix(msg_prefix(), l3) {
            assert(l3.take(9)[0] == 'S' as u8);
            assert(msg_prefix()[0] == 'M' as u8);
        }
    }
    assert(!is_prefix(rssi_prefix(), l3)) by {
        if is_prefix(rssi_prefix(), l3) {
            assert(l3.take(6)[0] == 'S' as u8);
            assert(rssi_prefix()[0] == 'R' as u8);
        }
    }
    assert(is_prefix(snr_prefix(), l3)) by {
        assert(l3.take(5) =~= snr_prefix());
    }
    assert(l3.skip(5) =~= st);
}

/// A noise line with no buffered message before it emits nothing and moves
/// nothing: desynchronized metadata is dropped.
pub proof fn lemma_snr_alone_no_emit(m0: CorrModel, v: Variant, st: Seq<u8>)
    requires
        !(m0.state is HaveRssi),
    ensures
        corr_step(m0, snr_prefix() + st, v).1 is None,
        corr_step(m0, snr_prefix() + st, v).0 == m0,
{
    let l3 = snr_prefix() + st;
    assert(!is_prefix(msg_prefix(), l3)) by {
        if is_prefix(msg_prefix(), l3) {
            assert(l3.take(9)[0] == 'S' as u8);
            assert(msg_prefix()[0] == 'M' as u8);
        }
    }
    assert(!is_prefix(rssi_prefix(), l3)) by {
        if is_prefix(rssi_prefix(), l3) {
            assert(l3.take(6)[0] == 'S' as u8);
            assert(rssi_prefix()[0] == 'R' as u8);
        }
    }
    assert(is_prefix(snr_prefix(), l3)) by {
        assert(l3.take(5) =~= snr_prefix());
    }
    assert(l3.skip(5) =~= st);
}

/// Pairs a buffered message body with the metadata lines that trail it.
pub struct MetadataCorrelator {
    state: CorrState,
    pending: Vec<u8>,
    rssi: i32,
    variant: Variant,
}

impl View for MetadataCorrelator {
    type V = CorrModel;

    closed spec fn view(&self) -> CorrModel {
        CorrModel { state: self.state, pending: self.pending@, rssi: self.rssi }
    }
}

impl MetadataCorrelator {
    /// The session variant the pending body will be decoded under.
    pub closed spec fn variant(&self) -> Variant {
        self.variant
    }

    /// A fresh correlator with nothing buffered.
    pub fn new(variant: Variant) -> (c: MetadataCorrelator)
        ensures
            c@ == (CorrModel {
                state: CorrState::WaitingMessage,
                pending: Seq::<u8>::empty(),
                rssi: 0,
            }),
            c.variant() == variant,
    {
        let c = MetadataCorrelator {
            state: CorrState::WaitingMessage,
            pending: Vec::new(),
            rssi: 0,
            variant,
        };
        proof {
            assert(c@ =~~= (CorrModel {
                state: CorrState::WaitingMessage,
                pending: Seq::<u8>::empty(),
                rssi: 0,
            }));
        }
        c
    }

    /// Feed one extracted line; a completed triple decodes and emits.
    pub fn push_line(&mut self, line: &[u8]) -> (r: Option<TelemetryData>)
        ensures
            final(self)@ == corr_step(old(self)@, line@, old(self).variant()).0,
            final(self).variant() == old(self).variant(),
            r is Some <==> corr_step(old(self)@, line@, old(self).variant()).1 is Some,
            r is Some ==> Some(r->Some_0@) == corr_step(old(self)@, line@, old(self).variant()).1,
    {
        let p_msg: [u8; 9] = ['M' as u8, 'e' as u8, 's' as u8, 's' as u8, 'a' as u8, 'g' as u8, 'e' as u8, ':' as u8, ' ' as u8];
        let p_rssi: [u8; 6] = ['R' as u8, 'S' as u8, 'S' as u8, 'I' as u8, ':' as u8, ' ' as u8];
        let p_snr: [u8; 5] = ['S' as u8, 'n' as u8, 'r' as u8, ':' as u8, ' ' as u8];
        proof {
            assert(p_msg@ =~= msg_prefix());
            assert(p_rssi@ =~= rssi_prefix());
            assert(p_snr@ =~= snr_prefix());
        }
        let n = line.len();
        if starts_with(line, p_msg.as_slice()) {
            let body = &line[9..n];
            proof {
                assert(body@ =~= line@.skip(9));
            }
            let trimmed = trim_bytes(body);
            self.pending = vstd::slice::slice_to_vec(trimmed);
            self.state = CorrState::HaveMessage;
            proof {
                assert(self@ =~~= corr_step(old(self)@, line@, old(self).variant()).0);
            }
            None
        } else if starts_with(line, p_rssi.as_slice()) {
            let txt = &line[6..n];
            proof {
                assert(txt@ =~= line@.skip(6));
            }
            match parse_i32(trim_bytes(txt)) {
                Some(v) => {
                    let ready = match self.state {
                        CorrState::WaitingMessage => false,
                        CorrState::HaveMessage => true,
                        CorrState::HaveRssi => true,
                    };
                    if ready {
                        self.rssi = v;
                        self.state = CorrState::HaveRssi;
                        proof {
                            assert(self@ =~~= corr_step(old(self)@, line@, old(self).variant()).0);
                        }
                    }
                    None
                },
                None => None,
            }
        } else if starts_with(line, p_snr.as_slice()) {
            let txt = &line[5..n];
            proof {
                assert(txt@ =~= line@.skip(5));
            }
            match parse_decimal_micro(trim_bytes(txt)) {
                Some(s) => {
                    let ready = match self.state {
                        CorrState::WaitingMessage => false,
                        CorrState::HaveMessage => false,
                        CorrState::HaveRssi => true,
                    };
                    if ready {
                        let out = decode_frame(self.variant, self.pending.as_slice(), self.rssi, s);
                        self.pending = Vec::new();
                        self.state = CorrState::WaitingMessage;
                        proof {
                            assert(self@ =~~= corr_step(old(self)@, line@, old(self).variant()).0);
                        }
                        out
                    } else {
                        None
                    }
                },
                None => None,
            }
        } else {
            None
        }
    }
}

} // verus!
