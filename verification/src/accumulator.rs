//! Frame accumulation: raw bytes arrive in arbitrary chunks, complete frames
//! leave.  Extraction is a pure function of the buffered bytes, decides only
//! on evidence that can never be retracted by later bytes, and therefore
//! yields the same frames however the stream is chunked.

use vstd::prelude::*;
use crate::fixedpoint::{bytes_eq, find_byte, lemma_spec_find, spec_find};

verus! {

/// How frames are delimited on the wire.
#[derive(Clone, Copy, Debug, PartialEq, Eq, Structural)]
pub enum FramingMode {
    /// One frame per line; the line feed is dropped.
    Lines,
    /// `[` ... `]`, optionally followed by `,rssi:<int>` ended by a line
    /// feed or the `[` of the next frame.
    Bracketed,
}

/// Index of the first byte equal to `b1` or `b2`, or -1 when absent.
pub open spec fn spec_find2(s: Seq<u8>, b1: u8, b2: u8) -> int
    decreases s.len(),
{
    if s.len() == 0 {
        -1
    } else if s[0] == b1 || s[0] == b2 {
        0
    } else if spec_find2(s.skip(1), b1, b2) == -1 {
        -1
    } else {
        1 + spec_find2(s.skip(1), b1, b2)
    }
}

pub proof fn lemma_spec_find2(s: Seq<u8>, b1: u8, b2: u8)
    ensures
        spec_find2(s, b1, b2) == -1 ==> forall|i: int|
            0 <= i < s.len() ==> s[i] != b1 && s[i] != b2,
        spec_find2(s, b1, b2) != -1 ==> {
            &&& 0 <= spec_find2(s, b1, b2) < s.len()
            &&& (s[spec_find2(s, b1, b2)] == b1 || s[spec_find2(s, b1, b2)] == b2)
            &&& forall|i: int| 0 <= i < spec_find2(s, b1, b2) ==> s[i] != b1 && s[i] != b2
        },
    decreases s.len(),
{
    if s.len() > 0 && s[0] != b1 && s[0] != b2 {
        lemma_spec_find2(s.skip(1), b1, b2);
        assert(forall|i: int| 1 <= i < s.len() ==> s[i] == s.skip(1)[i - 1]);
    }
}

/// First index of `b1` or `b2` in `s`, if either occurs.
#[verifier::loop_isolation(false)]
pub fn find_byte2(s: &[u8], b1: u8, b2: u8) -> (r: Option<usize>)
    ensures
        r is Some <==> spec_find2(s@, b1, b2) != -1,
        r is Some ==> r->Some_0 == spec_find2(s@, b1, b2),
{
    proof {
        lemma_spec_find2(s@, b1, b2);
    }
    let n = s.len();
    let mut i: usize = 0;
    while i < n
        invariant
            0 <= i <= n,
            forall|j: int| 0 <= j < i ==> s@[j] != b1 && s@[j] != b2,
        decreases n - i,
    {
        if s[i] == b1 || s[i] == b2 {
            proof {
                let f = spec_find2(s@, b1, b2);
                if f == -1 {
                } else if f < i {
                } else if f > i {
                }
            }
            return Some(i);
        }
        i = i + 1;
    }
    None
}

/// A found first occurrence stays the first occurrence when bytes follow.
proof fn lemma_find_extend(s: Seq<u8>, t: Seq<u8>, b: u8)
    requires
        spec_find(s, b) != -1,
    ensures
        spec_find(s + t, b) == spec_find(s, b),
{
    lemma_spec_find(s, b);
    lemma_spec_find(s + t, b);
    let f = spec_find(s, b);
    let g = spec_find(s + t, b);
    assert((s + t)[f] == b);
    if g == -1 {
        assert((s + t)[f] != b);
    } else if g < f {
        assert((s + t)[g] == b);
        assert(s[g] == b);
        assert(s[g] != b);
    } else if g > f {
        assert((s + t)[f] != b);
    }
}

proof fn lemma_find2_extend(s: Seq<u8>, t: Seq<u8>, b1: u8, b2: u8)
    requires
        spec_find2(s, b1, b2) != -1,
    ensures
        spec_find2(s + t, b1, b2) == spec_find2(s, b1, b2),
{
    lemma_spec_find2(s, b1, b2);
    lemma_spec_find2(s + t, b1, b2);
    let f = spec_find2(s, b1, b2);
    let g = spec_find2(s + t, b1, b2);
    assert((s + t)[f] == s[f]);
    if g == -1 {
    } else if g < f {
        assert(s[g] == (s + t)[g]);
    } else if g > f {
    }
}

/// The `,rssi:` continuation that may follow a closing bracket.
pub open spec fn rssi_tail() -> Seq<u8> {
    seq![',' as u8, 'r' as u8, 's' as u8, 's' as u8, 'i' as u8, ':' as u8]
}

/// One extraction step: `Some((start, end, consume))` slices the frame
/// `s[start..end]` off and keeps `s[consume..]`; `None` waits for more
/// bytes.  The decision looks only at bytes whose meaning later input cannot
/// change, which is what makes extraction chunking-independent.
pub open spec fn spec_extract_one(mode: FramingMode, s: Seq<u8>) -> Option<(int, int, int)> {
    match mode {
        FramingMode::Lines => {
            let i = spec_find(s, '\n' as u8);
            if i == -1 {
                None
            } else {
                Some((0int, i, i + 1))
            }
        },
        FramingMode::Bracketed => {
            let b = spec_find(s, '[' as u8);
            if b == -1 {
                None
            } else {
                let e0 = spec_find(s.skip(b + 1), ']' as u8);
                if e0 == -1 {
                    None
                } else {
                    let e = b + 1 + e0;
                    let after = s.skip(e + 1);
                    let k = if after.len() <= 6 {
                        after.len() as int
                    } else {
                        6int
                    };
                    if after.take(k) == rssi_tail().take(k) {
                        if after.len() < 6 {
                            // The suffix may still be arriving.
                            None
                        } else {
                            let tail = after.skip(6);
                            let t = spec_find2(tail, '\n' as u8, '[' as u8);
                            if t == -1 {
                                None
                            } else {
                                Some((b, e + 7 + t, e + 7 + t))
                            }
                        }
                    } else {
                        Some((b, e + 1, e + 1))
                    }
                }
            }
        },
    }
}

/// What makes extraction chunking-independent: a step that succeeds on `s`
/// makes the same decision on any extension of `s`.
pub proof fn lemma_extract_one_stable(mode: FramingMode, s: Seq<u8>, t: Seq<u8>)
    requires
        spec_extract_one(mode, s) is Some,
    ensures
        spec_extract_one(mode, s + t) == spec_extract_one(mode, s),
{
    match mode {
        FramingMode::Lines => {
            lemma_find_extend(s, t, '\n' as u8);
        },
        FramingMode::Bracketed => {
            lemma_spec_find(s, '[' as u8);
            let b = spec_find(s, '[' as u8);
            lemma_find_extend(s, t, '[' as u8);
            let e0 = spec_find(s.skip(b + 1), ']' as u8);
            lemma_spec_find(s.skip(b + 1), ']' as u8);
            assert((s + t).skip(b + 1) =~= s.skip(b + 1) + t);
            lemma_find_extend(s.skip(b + 1), t, ']' as u8);
            let e = b + 1 + e0;
            let after = s.skip(e + 1);
            let after2 = (s + t).skip(e + 1);
            assert(after2 =~= after + t);
            let k = if after.len() <= 6 {
                after.len() as int
            } else {
                6int
            };
            let k2 = if after2.len() <= 6 {
                after2.len() as int
            } else {
                6int
            };
            if after.take(k) == rssi_tail().take(k) {
                // The waiting case is excluded by the precondition, so the
                // suffix is complete and survives extension unchanged.
                assert(after.len() >= 6);
                assert(k == 6 && k2 == 6);
                assert(after2.take(6) =~= after.take(6));
                let tail = after.skip(6);
                let tail2 = after2.skip(6);
                assert(tail2 =~= tail + t);
                lemma_find2_extend(tail, t, '\n' as u8, '[' as u8);
            } else {
                // The suffix already diverged at some position, and that
                // byte does not change when more bytes follow.
                assert(exists|j: int| 0 <= j < k && after[j] != rssi_tail()[j]) by {
                    if forall|j: int| 0 <= j < k ==> after[j] == rssi_tail()[j] {
                        assert(after.take(k) =~= rssi_tail().take(k));
                    }
                }
                let j = choose|j: int| 0 <= j < k && after[j] != rssi_tail()[j];
                assert(after2.take(k2)[j] == after[j]);
                assert(rssi_tail().take(k2)[j] == rssi_tail()[j]);
                assert(after2.take(k2) != rssi_tail().take(k2));
            }
        },
    }
}

/// Frames and remainder of a whole buffer: extraction runs to fixpoint.
pub open spec fn spec_extract_all(mode: FramingMode, s: Seq<u8>) -> (Seq<Seq<u8>>, Seq<u8>)
    decreases s.len(),
{
    match spec_extract_one(mode, s) {
        Some(x) => {
            let (st, en, co) = x;
            if 0 <= st <= en <= co <= s.len() && 0 < co {
                let r = spec_extract_all(mode, s.skip(co));
                (seq![s.subrange(st, en)] + r.0, r.1)
            } else {
                // Never reached: an extracted frame is in bounds and
                // consumes at least one byte (`lemma_extract_one_bounds`).
                (Seq::<Seq<u8>>::empty(), s)
            }
        },
        None => (Seq::<Seq<u8>>::empty(), s),
    }
}

/// Feeding the stream in two chunks yields exactly the frames of feeding it
/// whole: the frames of `s` first, then the frames of the leftover of `s`
/// concatenated with `t`.  Applied chunk by chunk, this is why an arbitrary
/// split of the byte stream produces the same frame sequence as one
/// delivery.
pub proof fn lemma_extract_all_append(mode: FramingMode, s: Seq<u8>, t: Seq<u8>)
    ensures
        ({
            let (fs1, r1) = spec_extract_all(mode, s);
            let (fs2, r2) = spec_extract_all(mode, r1 + t);
            spec_extract_all(mode, s + t) == ((fs1 + fs2), r2)
        }),
    decreases s.len(),
{
    match spec_extract_one(mode, s) {
        None => {
            let all = spec_extract_all(mode, s + t);
            assert(spec_extract_all(mode, s).1 + t =~= s + t);
            assert(Seq::<Seq<u8>>::empty() + all.0 =~~= all.0);
        },
        Some(x) => {
            lemma_extract_one_bounds(mode, s);
            lemma_extract_one_stable(mode, s, t);
            let (st, en, co) = x;
            let r = s.skip(co);
            assert((s + t).skip(co) =~= r + t);
            assert((s + t).subrange(st, en) =~= s.subrange(st, en));
            lemma_extract_all_append(mode, r, t);
            let f = s.subrange(st, en);
            let fr1 = spec_extract_all(mode, r).0;
            let fr2 = spec_extract_all(mode, spec_extract_all(mode, r).1 + t).0;
            assert(seq![f] + (fr1 + fr2) =~~= (seq![f] + fr1) + fr2);
        },
    }
}

/// An extracted frame always consumes at least one byte and never reads past
/// the buffer.
pub proof fn lemma_extract_one_bounds(mode: FramingMode, s: Seq<u8>)
    requires
        spec_extract_one(mode, s) is Some,
    ensures
        ({
            let (st, en, co) = spec_extract_one(mode, s)->Some_0;
            0 <= st <= en <= co <= s.len() && 0 < co
        }),
{
    match mode {
        FramingMode::Lines => {
            lemma_spec_find(s, '\n' as u8);
        },
        FramingMode::Bracketed => {
            lemma_spec_find(s, '[' as u8);
            let b = spec_find(s, '[' as u8);
            lemma_spec_find(s.skip(b + 1), ']' as u8);
            let e0 = spec_find(s.skip(b + 1), ']' as u8);
            let e = b + 1 + e0;
            let after = s.skip(e + 1);
            lemma_spec_find2(after.skip(6), '\n' as u8, '[' as u8);
        },
    }
}

/// What one feed does, as a function: extract every frame from the old
/// buffer extended by the new bytes, then either keep the remainder or, past
/// the cap, drop it and count one overflow (saturating).
pub open spec fn spec_feed(mode: FramingMode, buf: Seq<u8>, bytes: Seq<u8>, cap: nat, ovf: u64) -> (
    Seq<Seq<u8>>,
    Seq<u8>,
    u64,
) {
    let r = spec_extract_all(mode, buf + bytes);
    if r.1.len() <= cap {
        (r.0, r.1, ovf)
    } else {
        (
            r.0,
            Seq::<u8>::empty(),
            if ovf < u64::MAX {
                (ovf + 1) as u64
            } else {
                ovf
            },
        )
    }
}

/// The remainder of a full extraction holds no further frame.
pub proof fn lemma_extract_all_rest(mode: FramingMode, s: Seq<u8>)
    ensures
        spec_extract_one(mode, spec_extract_all(mode, s).1) is None,
    decreases s.len(),
{
    match spec_extract_one(mode, s) {
        None => {},
        Some(x) => {
            lemma_extract_one_bounds(mode, s);
            let (st, en, co) = x;
            lemma_extract_all_rest(mode, s.skip(co));
        },
    }
}

/// One executable extraction step, the mirror of `spec_extract_one`.
fn extract_one(mode: FramingMode, buf: &[u8]) -> (r: Option<(usize, usize, usize)>)
    ensures
        r is Some <==> spec_extract_one(mode, buf@) is Some,
        r is Some ==> spec_extract_one(mode, buf@) == Some(
            (r->Some_0.0 as int, r->Some_0.1 as int, r->Some_0.2 as int),
        ),
{
    let n = buf.len();
    match mode {
        FramingMode::Lines => {
            proof {
                lemma_spec_find(buf@, '\n' as u8);
            }
            match find_byte(buf, '\n' as u8) {
                None => None,
                Some(i) => Some((0, i, i + 1)),
            }
        },
        FramingMode::Bracketed => {
            let b = match find_byte(buf, '[' as u8) {
                None => {
                    return None;
                },
                Some(b) => b,
            };
            proof {
                lemma_spec_find(buf@, '[' as u8);
            }
            let sub = &buf[b + 1..n];
            proof {
                assert(sub@ =~= buf@.skip(b + 1));
            }
            let e0 = match find_byte(sub, ']' as u8) {
                None => {
                    return None;
                },
                Some(e) => e,
            };
            proof {
                lemma_spec_find(sub@, ']' as u8);
            }
            let e = b + 1 + e0;
            let after = &buf[e + 1..n];
            proof {
                assert(after@ =~= buf@.skip(e + 1));
            }
            let marker: [u8; 6] = [',' as u8, 'r' as u8, 's' as u8, 's' as u8, 'i' as u8, ':' as u8];
            proof {
                assert(marker@ =~= rssi_tail());
            }
            let k = if after.len() <= 6 {
                after.len()
            } else {
                6
            };
            let aw = &after[0..k];
            let ms = marker.as_slice();
            let mw = &ms[0..k];
            proof {
                assert(aw@ =~= buf@.skip(e + 1).take(k as int));
                assert(mw@ =~= rssi_tail().take(k as int));
            }
            if bytes_eq(aw, mw) {
                if after.len() < 6 {
                    None
                } else {
                    let tail = &after[6..after.len()];
                    proof {
                        assert(tail@ =~= buf@.skip(e + 1).skip(6));
                        lemma_spec_find2(tail@, '\n' as u8, '[' as u8);
                    }
                    match find_byte2(tail, '\n' as u8, '[' as u8) {
                        None => None,
                        Some(tpos) => Some((b, e + 7 + tpos, e + 7 + tpos)),
                    }
                }
            } else {
                Some((b, e + 1, e + 1))
            }
        },
    }
}

/// Owns the growable buffer between reads; extraction runs to fixpoint on
/// every feed, and a buffer that outgrows its cap is dropped whole so that
/// the stream can resynchronize (counted separately from malformed frames).
pub struct FrameAccumulator {
    buf: Vec<u8>,
    mode: FramingMode,
    max_buf: usize,
    overflow_count: u64,
}

impl FrameAccumulator {
    /// The bytes currently held back, waiting for a complete frame.
    pub closed spec fn buffer(&self) -> Seq<u8> {
        self.buf@
    }

    /// The framing this session was configured with.
    pub closed spec fn framing(&self) -> FramingMode {
        self.mode
    }

    /// The buffer-size cap that forces resynchronization.
    pub closed spec fn capacity(&self) -> nat {
        self.max_buf as nat
    }

    /// How many times the buffer overflowed and was dropped.
    pub closed spec fn overflows(&self) -> u64 {
        self.overflow_count
    }

    /// The standing invariant: no complete frame is ever left in the
    /// buffer, and the buffer respects its cap.
    pub open spec fn wf(&self) -> bool {
        &&& spec_extract_one(self.framing(), self.buffer()) is None
        &&& self.buffer().len() <= self.capacity()
    }

    /// An empty accumulator for one session.
    pub fn new(mode: FramingMode, max_buf: usize) -> (a: FrameAccumulator)
        ensures
            a.wf(),
            a.buffer() == Seq::<u8>::empty(),
            a.framing() == mode,
            a.capacity() == max_buf as nat,
            a.overflows() == 0,
    {
        let a = FrameAccumulator { buf: Vec::new(), mode, max_buf, overflow_count: 0 };
        proof {
            assert(spec_extract_one(mode, a.buf@) is None);
        }
        a
    }

    /// Append newly read bytes and slice off every complete frame, oldest
    /// first.  The frames and the retained remainder are exactly what
    /// `spec_extract_all` yields on the concatenation of the old buffer and
    /// the new bytes; if the remainder would exceed the cap it is dropped
    /// whole and the overflow count grows by one (saturating).
    #[verifier::loop_isolation(false)]
    pub fn feed(&mut self, bytes: &[u8]) -> (frames: Vec<Vec<u8>>)
        requires
            old(self).wf(),
        ensures
            ({
                let r = spec_feed(
                    old(self).framing(),
                    old(self).buffer(),
                    bytes@,
                    old(self).capacity(),
                    old(self).overflows(),
                );
                &&& final(self).wf()
                &&& final(self).framing() == old(self).framing()
                &&& final(self).capacity() == old(self).capacity()
                &&& frames@.map_values(|v: Vec<u8>| v@) == r.0
                &&& final(self).buffer() == r.1
                &&& final(self).overflows() == r.2
            }),
    {
        self.buf.extend_from_slice(bytes);
        let ghost orig = old(self).buffer() + bytes@;
        let ghost mode = self.mode;
        proof {
            assert(self.buf@ =~= orig);
        }
        let mut frames: Vec<Vec<u8>> = Vec::new();
        proof {
            assert(Seq::<Seq<u8>>::empty() + spec_extract_all(mode, orig).0 =~~= spec_extract_all(
                mode,
                orig,
            ).0);
        }
        let mut done = false;
        while !done
            invariant
                self.mode == mode,
                self.max_buf == old(self).max_buf,
                self.overflow_count == old(self).overflow_count,
                spec_extract_all(mode, orig).0 =~~= frames@.map_values(|v: Vec<u8>| v@)
                    + spec_extract_all(mode, self.buf@).0,
                spec_extract_all(mode, orig).1 == spec_extract_all(mode, self.buf@).1,
                done ==> spec_extract_one(mode, self.buf@) is None,
            decreases self.buf@.len() + (if done {
                0int
            } else {
                1int
            }),
        {
            match extract_one(self.mode, self.buf.as_slice()) {
                None => {
                    done = true;
                },
                Some((st, en, co)) => {
                    proof {
                        lemma_extract_one_bounds(mode, self.buf@);
                    }
                    let bs = self.buf.as_slice();
                    let frame = vstd::slice::slice_to_vec(&bs[st..en]);
                    let rest = vstd::slice::slice_to_vec(&bs[co..bs.len()]);
                    let ghost prev = self.buf@;
                    let ghost old_frames = frames@;
                    frames.push(frame);
                    self.buf = rest;
                    proof {
                        assert(self.buf@ =~= prev.skip(co as int));
                        assert(frame@ =~= prev.subrange(st as int, en as int));
                        assert(frames@.map_values(|v: Vec<u8>| v@) =~~= old_frames.map_values(
                            |v: Vec<u8>| v@,
                        ).push(frame@));
                        assert(spec_extract_all(mode, prev).0 =~~= seq![
                            prev.subrange(st as int, en as int),
                        ] + spec_extract_all(mode, prev.skip(co as int)).0);
                        assert(old_frames.map_values(|v: Vec<u8>| v@) + spec_extract_all(
                            mode,
                            prev,
                        ).0 =~~= frames@.map_values(|v: Vec<u8>| v@) + spec_extract_all(
                            mode,
                            self.buf@,
                        ).0);
                    }
                },
            }
        }
        proof {
            assert(spec_extract_all(mode, self.buf@).0 =~~= Seq::<Seq<u8>>::empty());
            assert(frames@.map_values(|v: Vec<u8>| v@) + Seq::<Seq<u8>>::empty()
                =~~= frames@.map_values(|v: Vec<u8>| v@));
        }
        if self.buf.len() > self.max_buf {
            // Unterminated data beyond the cap: drop and resynchronize.
            self.buf = Vec::new();
            self.overflow_count = if self.overflow_count < u64::MAX {
                self.overflow_count + 1
            } else {
                u64::MAX
            };
            proof {
                assert(spec_extract_one(mode, self.buf@) is None);
            }
        } else {
            proof {
                lemma_extract_all_rest(mode, orig);
            }
        }
        frames
    }

    /// How many times the buffer was dropped for want of a terminator.
    pub fn overflow_events(&self) -> (c: u64)
        ensures
            c == self.overflows(),
    {
        self.overflow_count
    }
}

} // verus!
