//! Fixed-point numeric text: parsing decimal text into micro-unit integers,
//! rendering unsigned integers back to decimal text, and the window
//! reductions (truncated mean, lowest-tie mode) used by the aggregator.

use vstd::prelude::*;

verus! {

/// An ASCII decimal digit.
pub open spec fn is_digit(b: u8) -> bool {
    48 <= b <= 57
}

/// Every byte of `s` is an ASCII decimal digit.
pub open spec fn all_digits(s: Seq<u8>) -> bool {
    forall|i: int| 0 <= i < s.len() ==> is_digit(s[i])
}

/// The number denoted by a sequence of ASCII digits, most significant first.
pub open spec fn digits_val(s: Seq<u8>) -> int
    decreases s.len(),
{
    if s.len() == 0 {
        0
    } else {
        digits_val(s.drop_last()) * 10 + (s.last() - 48)
    }
}

/// The value of a digit string never shrinks when more digits follow.
proof fn lemma_digits_val_take_le(s: Seq<u8>, i: int)
    requires
        all_digits(s),
        0 <= i <= s.len(),
    ensures
        digits_val(s.take(i)) <= digits_val(s),
        digits_val(s) >= 0,
    decreases s.len() - i,
{
    if i == s.len() {
        assert(s.take(i) =~= s);
        lemma_digits_val_nonneg(s);
    } else {
        lemma_digits_val_take_le(s, i + 1);
        lemma_digits_val_nonneg(s.take(i));
        assert(s.take(i + 1).drop_last() =~= s.take(i));
        assert(digits_val(s.take(i + 1)) == digits_val(s.take(i)) * 10 + (s[i] - 48));
    }
}

pub proof fn lemma_digits_val_nonneg(s: Seq<u8>)
    requires
        all_digits(s),
    ensures
        digits_val(s) >= 0,
    decreases s.len(),
{
    if s.len() > 0 {
        assert(all_digits(s.drop_last()));
        lemma_digits_val_nonneg(s.drop_last());
        assert(is_digit(s.last()));
    }
}

/// Parse an unsigned decimal integer.  Succeeds exactly on non-empty
/// all-digit input whose value fits in a `u64`.
pub fn parse_u64(s: &[u8]) -> (r: Option<u64>)
    ensures
        r is Some <==> s@.len() > 0 && all_digits(s@) && digits_val(s@) <= u64::MAX,
        r is Some ==> r->Some_0 == digits_val(s@),
{
    if s.len() == 0 {
        return None;
    }
    let mut val: u64 = 0;
    let mut i: usize = 0;
    while i < s.len()
        invariant
            0 <= i <= s@.len(),
            all_digits(s@.take(i as int)),
            val == digits_val(s@.take(i as int)),
        decreases s@.len() - i,
    {
        let b = s[i];
        if b < 48 || b > 57 {
            assert(!is_digit(s@[i as int]));
            return None;
        }
        let d: u64 = (b - 48) as u64;
        proof {
            assert(s@.take(i + 1).drop_last() =~= s@.take(i as int));
        }
        let wide: u128 = val as u128 * 10 + d as u128;
        if wide > u64::MAX as u128 {
            proof {
                assert(digits_val(s@.take(i + 1)) > u64::MAX);
                if all_digits(s@) {
                    lemma_digits_val_take_le(s@, i + 1);
                }
            }
            return None;
        }
        val = wide as u64;
        i = i + 1;
    }
    proof {
        assert(s@.take(i as int) =~= s@);
    }
    Some(val)
}

/// Index of the first occurrence of `b` in `s`, or -1 when absent.
pub open spec fn spec_find(s: Seq<u8>, b: u8) -> int
    decreases s.len(),
{
    if s.len() == 0 {
        -1
    } else if s[0] == b {
        0
    } else if spec_find(s.skip(1), b) == -1 {
        -1
    } else {
        1 + spec_find(s.skip(1), b)
    }
}

/// What `spec_find` returns: either -1 and no occurrence, or the first index.
pub proof fn lemma_spec_find(s: Seq<u8>, b: u8)
    ensures
        spec_find(s, b) == -1 ==> forall|i: int| 0 <= i < s.len() ==> s[i] != b,
        spec_find(s, b) != -1 ==> {
            &&& 0 <= spec_find(s, b) < s.len()
            &&& s[spec_find(s, b)] == b
            &&& forall|i: int| 0 <= i < spec_find(s, b) ==> s[i] != b
        },
    decreases s.len(),
{
    if s.len() > 0 && s[0] != b {
        lemma_spec_find(s.skip(1), b);
        assert(forall|i: int| 1 <= i < s.len() ==> s[i] == s.skip(1)[i - 1]);
    }
}

/// First index of `b` in `s`, if any.
pub fn find_byte(s: &[u8], b: u8) -> (r: Option<usize>)
    ensures
        r is Some <==> spec_find(s@, b) != -1,
        r is Some ==> r->Some_0 == spec_find(s@, b),
{
    proof {
        lemma_spec_find(s@, b);
    }
    let mut i: usize = 0;
    while i < s.len()
        invariant
            0 <= i <= s@.len(),
            forall|j: int| 0 <= j < i ==> s@[j] != b,
            spec_find(s@, b) == -1 ==> forall|j: int| 0 <= j < s@.len() ==> s@[j] != b,
            spec_find(s@, b) != -1 ==> 0 <= spec_find(s@, b) < s@.len() && s@[spec_find(s@, b)] == b
                && (forall|j: int| 0 <= j < spec_find(s@, b) ==> s@[j] != b),
        decreases s@.len() - i,
    {
        if s[i] == b {
            return Some(i);
        }
        i = i + 1;
    }
    None
}

/// Largest whole part a decimal numeral may carry; keeps every micro-unit
/// value well inside the `i64` range.
pub const INT_CAP: u64 = 1_000_000_000_000;

pub open spec fn pow10(n: nat) -> int
    decreases n,
{
    if n == 0 {
        1
    } else {
        10 * pow10((n - 1) as nat)
    }
}

/// Micro-units contributed by the fractional digit string `s`: the first six
/// digits, zero-padded to six places; digits beyond the sixth are truncated.
pub open spec fn frac_micro(s: Seq<u8>) -> int {
    let k = if s.len() <= 6 { s.len() as int } else { 6int };
    digits_val(s.take(k)) * pow10((6 - k) as nat)
}

/// An unsigned decimal numeral: digits with at most one point and at least
/// one digit, whole part at most `INT_CAP`.  The value is in micro-units;
/// fractional digits beyond the sixth are truncated.
pub open spec fn spec_unsigned_micro(s: Seq<u8>) -> Option<int> {
    let dot = spec_find(s, 46);
    if dot == -1 {
        if s.len() > 0 && all_digits(s) && digits_val(s) <= INT_CAP {
            Some(digits_val(s) * 1_000_000)
        } else {
            None
        }
    } else {
        let ip = s.take(dot);
        let fp = s.skip(dot + 1);
        if (ip.len() > 0 || fp.len() > 0) && all_digits(ip) && all_digits(fp) && digits_val(ip)
            <= INT_CAP {
            Some(digits_val(ip) * 1_000_000 + frac_micro(fp))
        } else {
            None
        }
    }
}

/// A decimal numeral with an optional leading sign, in micro-units.
pub open spec fn spec_decimal_micro(s: Seq<u8>) -> Option<int> {
    if s.len() > 0 && (s[0] == 43 || s[0] == 45) {
        match spec_unsigned_micro(s.skip(1)) {
            Some(m) => Some(if s[0] == 45 { -m } else { m }),
            None => None,
        }
    } else {
        spec_unsigned_micro(s)
    }
}

/// The magnitude bound every parsed micro-unit value obeys.
pub open spec fn micro_in_range(m: int) -> bool {
    -1_000_000_000_000_999_999 <= m <= 1_000_000_000_000_999_999
}

proof fn lemma_pow10_vals()
    ensures
        pow10(0) == 1,
        pow10(1) == 10,
        pow10(2) == 100,
        pow10(3) == 1_000,
        pow10(4) == 10_000,
        pow10(5) == 100_000,
        pow10(6) == 1_000_000,
{
    reveal_with_fuel(pow10, 7);
}

proof fn lemma_frac_micro_range(s: Seq<u8>)
    requires
        all_digits(s),
    ensures
        0 <= frac_micro(s) <= 999_999,
{
    let k = if s.len() <= 6 { s.len() as int } else { 6int };
    assert(all_digits(s.take(k)));
    lemma_digits_val_nonneg(s.take(k));
    lemma_digits_val_bound(s.take(k));
    lemma_pow10_vals();
    assert(s.take(k).len() == k);
    let dv = digits_val(s.take(k));
    if k == 0 {
        assert(frac_micro(s) == dv * 1_000_000);
    } else if k == 1 {
        assert(dv <= 9 && frac_micro(s) == dv * 100_000);
    } else if k == 2 {
        assert(dv <= 99 && frac_micro(s) == dv * 10_000);
    } else if k == 3 {
        assert(dv <= 999 && frac_micro(s) == dv * 1_000);
    } else if k == 4 {
        assert(dv <= 9_999 && frac_micro(s) == dv * 100);
    } else if k == 5 {
        assert(dv <= 99_999 && frac_micro(s) == dv * 10);
    } else {
        assert(dv <= 999_999 && frac_micro(s) == dv * 1);
    }
}

/// A `k`-digit string denotes a value below `10^k`.
proof fn lemma_digits_val_bound(s: Seq<u8>)
    requires
        all_digits(s),
    ensures
        digits_val(s) < pow10(s.len()),
    decreases s.len(),
{
    if s.len() > 0 {
        assert(all_digits(s.drop_last()));
        lemma_digits_val_bound(s.drop_last());
        assert(is_digit(s.last()));
    }
}

#[verifier::loop_isolation(false)]
#[verifier::rlimit(60)]
fn parse_unsigned_micro(s: &[u8]) -> (r: Option<i64>)
    ensures
        r is Some <==> spec_unsigned_micro(s@) is Some,
        r is Some ==> spec_unsigned_micro(s@) == Some(r->Some_0 as int),
        r is Some ==> 0 <= r->Some_0 <= 1_000_000_000_000_999_999,
{
    match find_byte(s, 46) {
        None => {
            match parse_u64(s) {
                None => None,
                Some(v) => {
                    if v <= INT_CAP {
                        Some((v as i64) * 1_000_000)
                    } else {
                        None
                    }
                },
            }
        },
        Some(dot) => {
            proof {
                lemma_spec_find(s@, 46);
            }
            let n = s.len();
            assert(dot < n);
            let ip = &s[0..dot];
            let fp = &s[dot + 1..n];
            proof {
                assert(ip@ =~= s@.take(dot as int));
                assert(fp@ =~= s@.skip(dot + 1));
            }
            if ip.len() == 0 && fp.len() == 0 {
                return None;
            }
            let whole: u64 = if ip.len() == 0 {
                0
            } else {
                match parse_u64(ip) {
                    None => {
                        return None;
                    },
                    Some(v) => {
                        if v > INT_CAP {
                            return None;
                        }
                        v
                    },
                }
            };
            // Fractional digits: validate all, accumulate the first six.
            let mut i: usize = 0;
            let mut fv: u64 = 0;
            while i < fp.len()
                invariant
                    0 <= i <= fp@.len(),
                    all_digits(fp@.take(i as int)),
                    i <= 6 ==> fv == digits_val(fp@.take(i as int)),
                    i > 6 ==> fv == digits_val(fp@.take(6)),
                    fv <= 999_999,
                decreases fp@.len() - i,
            {
                let b = fp[i];
                if b < 48 || b > 57 {
                    assert(!is_digit(fp@[i as int]));
                    return None;
                }
                proof {
                    assert(fp@.take(i + 1).drop_last() =~= fp@.take(i as int));
                    if i < 6 {
                        lemma_digits_val_bound(fp@.take(i as int));
                        lemma_pow10_vals();
                    }
                }
                if i < 6 {
                    fv = fv * 10 + (b - 48) as u64;
                }
                i = i + 1;
            }
            proof {
                assert(fp@.take(i as int) =~= fp@);
            }
            // Zero-pad the fraction to six places.
            let k: usize = if fp.len() <= 6 { fp.len() } else { 6 };
            proof {
                lemma_digits_val_nonneg(fp@.take(k as int));
                lemma_digits_val_bound(fp@.take(k as int));
                lemma_pow10_vals();
                assert(fp@.take(k as int).len() == k);
            }
            let frac: u64 = if k == 0 {
                let f = fv * 1_000_000;
                assert(f == frac_micro(fp@) && f <= 999_999);
                f
            } else if k == 1 {
                let f = fv * 100_000;
                assert(f == frac_micro(fp@) && f <= 999_999);
                f
            } else if k == 2 {
                let f = fv * 10_000;
                assert(f == frac_micro(fp@) && f <= 999_999);
                f
            } else if k == 3 {
                let f = fv * 1_000;
                assert(f == frac_micro(fp@) && f <= 999_999);
                f
            } else if k == 4 {
                let f = fv * 100;
                assert(f == frac_micro(fp@) && f <= 999_999);
                f
            } else if k == 5 {
                let f = fv * 10;
                assert(f == frac_micro(fp@) && f <= 999_999);
                f
            } else {
                assert(fv == frac_micro(fp@) && fv <= 999_999);
                fv
            };
            Some((whole as i64) * 1_000_000 + frac as i64)
        },
    }
}

/// Every value a decimal numeral can denote lies well inside `i64`.
pub proof fn lemma_decimal_micro_range(s: Seq<u8>)
    requires
        spec_decimal_micro(s) is Some,
    ensures
        micro_in_range(spec_decimal_micro(s)->Some_0),
{
    if s.len() > 0 && (s[0] == 43 || s[0] == 45) {
        lemma_unsigned_micro_range(s.skip(1));
    } else {
        lemma_unsigned_micro_range(s);
    }
}

proof fn lemma_unsigned_micro_range(s: Seq<u8>)
    requires
        spec_unsigned_micro(s) is Some,
    ensures
        0 <= spec_unsigned_micro(s)->Some_0 <= 1_000_000_000_000_999_999,
{
    let dot = spec_find(s, 46);
    if dot == -1 {
        lemma_digits_val_nonneg(s);
    } else {
        lemma_digits_val_nonneg(s.take(dot));
        lemma_frac_micro_range(s.skip(dot + 1));
    }
}

/// A plain integer numeral with an optional leading sign.
pub open spec fn spec_signed_int(s: Seq<u8>) -> Option<int> {
    if s.len() > 0 && (s[0] == 43 || s[0] == 45) {
        let body = s.skip(1);
        if body.len() > 0 && all_digits(body) {
            Some(if s[0] == 45 { -digits_val(body) } else { digits_val(body) })
        } else {
            None
        }
    } else {
        if s.len() > 0 && all_digits(s) {
            Some(digits_val(s))
        } else {
            None
        }
    }
}

/// Parse a signed integer numeral into an `i32`; `None` when the text is not
/// a numeral or its value does not fit.
pub fn parse_i32(s: &[u8]) -> (r: Option<i32>)
    ensures
        r is Some <==> (spec_signed_int(s@) is Some && i32::MIN <= spec_signed_int(s@)->Some_0
            <= i32::MAX),
        r is Some ==> spec_signed_int(s@) == Some(r->Some_0 as int),
{
    let neg = s.len() > 0 && s[0] == 45;
    let body: &[u8] = if s.len() > 0 && (s[0] == 43 || s[0] == 45) {
        let b = &s[1..s.len()];
        proof {
            assert(b@ =~= s@.skip(1));
        }
        b
    } else {
        s
    };
    match parse_u64(body) {
        None => None,
        Some(v) => {
            if neg {
                if v > 2_147_483_648 {
                    None
                } else {
                    Some((-(v as i64)) as i32)
                }
            } else {
                if v > 2_147_483_647 {
                    None
                } else {
                    Some(v as i32)
                }
            }
        },
    }
}

/// Parse an unsigned integer numeral into a `u32`.
pub fn parse_u32(s: &[u8]) -> (r: Option<u32>)
    ensures
        r is Some <==> s@.len() > 0 && all_digits(s@) && digits_val(s@) <= u32::MAX,
        r is Some ==> r->Some_0 == digits_val(s@),
{
    match parse_u64(s) {
        None => None,
        Some(v) => {
            if v > 4_294_967_295 {
                None
            } else {
                Some(v as u32)
            }
        },
    }
}

/// Whether `p` is a prefix of `s`.
pub open spec fn is_prefix(p: Seq<u8>, s: Seq<u8>) -> bool {
    p.len() <= s.len() && s.take(p.len() as int) == p
}

/// Byte-for-byte equality of two slices.
pub fn bytes_eq(a: &[u8], b: &[u8]) -> (r: bool)
    ensures
        r <==> a@ == b@,
{
    if a.len() != b.len() {
        return false;
    }
    let mut i: usize = 0;
    while i < a.len()
        invariant
            a@.len() == b@.len(),
            0 <= i <= a@.len(),
            forall|j: int| 0 <= j < i ==> a@[j] == b@[j],
        decreases a@.len() - i,
    {
        if a[i] != b[i] {
            assert(a@ != b@);
            return false;
        }
        i = i + 1;
    }
    proof {
        assert(a@ =~= b@);
    }
    true
}

/// Whether `s` starts with `p`.
pub fn starts_with(s: &[u8], p: &[u8]) -> (r: bool)
    ensures
        r <==> is_prefix(p@, s@),
{
    if p.len() > s.len() {
        return false;
    }
    let head = &s[0..p.len()];
    proof {
        assert(head@ =~= s@.take(p@.len() as int));
    }
    bytes_eq(head, p)
}

/// ASCII whitespace, as trimmed from keys and values.
pub open spec fn is_space(b: u8) -> bool {
    b == 32 || b == 9 || b == 13 || b == 10
}

pub open spec fn trim_front(s: Seq<u8>) -> Seq<u8>
    decreases s.len(),
{
    if s.len() > 0 && is_space(s[0]) {
        trim_front(s.skip(1))
    } else {
        s
    }
}

pub open spec fn trim_back(s: Seq<u8>) -> Seq<u8>
    decreases s.len(),
{
    if s.len() > 0 && is_space(s.last()) {
        trim_back(s.drop_last())
    } else {
        s
    }
}

/// `s` with ASCII whitespace removed from both ends.
pub open spec fn spec_trim(s: Seq<u8>) -> Seq<u8> {
    trim_back(trim_front(s))
}

proof fn lemma_trim_front_skip(s: Seq<u8>, i: int)
    requires
        0 <= i <= s.len(),
        forall|j: int| 0 <= j < i ==> is_space(s[j]),
        i < s.len() ==> !is_space(s[i]),
    ensures
        trim_front(s) == s.skip(i),
    decreases i,
{
    if i == 0 {
        if s.len() > 0 {
            assert(!is_space(s[0]));
        }
        assert(s.skip(0) =~= s);
    } else {
        assert(is_space(s[0]));
        let t = s.skip(1);
        assert(forall|j: int| 0 <= j < i - 1 ==> t[j] == s[j + 1]);
        lemma_trim_front_skip(t, i - 1);
        assert(t.skip(i - 1) =~= s.skip(i));
    }
}

proof fn lemma_trim_back_take(s: Seq<u8>, j: int)
    requires
        0 <= j <= s.len(),
        forall|k: int| j <= k < s.len() ==> is_space(s[k]),
        j > 0 ==> !is_space(s[j - 1]),
    ensures
        trim_back(s) == s.take(j),
    decreases s.len() - j,
{
    if j == s.len() {
        assert(s.take(j) =~= s);
        if s.len() > 0 {
            assert(!is_space(s.last()));
        }
    } else {
        assert(is_space(s.last()));
        let t = s.drop_last();
        lemma_trim_back_take(t, j);
        assert(t.take(j) =~= s.take(j));
    }
}

/// Trim ASCII whitespace from both ends of `s`.
#[verifier::loop_isolation(false)]
pub fn trim_bytes<'a>(s: &'a [u8]) -> (r: &'a [u8])
    ensures
        r@ == spec_trim(s@),
{
    let n = s.len();
    let mut i: usize = 0;
    while i < n && (s[i] == 32 || s[i] == 9 || s[i] == 13 || s[i] == 10)
        invariant
            0 <= i <= n,
            forall|j: int| 0 <= j < i ==> is_space(s@[j]),
        decreases n - i,
    {
        i = i + 1;
    }
    proof {
        lemma_trim_front_skip(s@, i as int);
    }
    let mut j: usize = n;
    while j > i && (s[j - 1] == 32 || s[j - 1] == 9 || s[j - 1] == 13 || s[j - 1] == 10)
        invariant
            i <= j <= n,
            forall|k: int| j <= k < n ==> is_space(s@[k]),
        decreases j,
    {
        j = j - 1;
    }
    let r = &s[i..j];
    proof {
        let f = s@.skip(i as int);
        if j > i {
            lemma_trim_back_take(f, j - i);
        } else {
            // Everything from `i` on is whitespace, so the trimmed tail is empty.
            lemma_trim_back_take(f, 0);
        }
        assert(f.take(j - i) =~= s@.subrange(i as int, j as int));
        assert(r@ =~= s@.subrange(i as int, j as int));
    }
    r
}

/// Parse a decimal numeral with an optional sign into micro-units:
/// `-8.40` becomes `-8_400_000`.
pub fn parse_decimal_micro(s: &[u8]) -> (r: Option<i64>)
    ensures
        r is Some <==> spec_decimal_micro(s@) is Some,
        r is Some ==> spec_decimal_micro(s@) == Some(r->Some_0 as int),
        r is Some ==> micro_in_range(r->Some_0 as int),
{
    if s.len() > 0 && (s[0] == 43 || s[0] == 45) {
        let rest = &s[1..s.len()];
        proof {
            assert(rest@ =~= s@.skip(1));
        }
        match parse_unsigned_micro(rest) {
            None => None,
            Some(m) => {
                if s[0] == 45 {
                    Some(-m)
                } else {
                    Some(m)
                }
            },
        }
    } else {
        parse_unsigned_micro(s)
    }
}

/// Value of a digit prepended to a digit string.
proof fn lemma_digits_val_prepend(d: u8, t: Seq<u8>)
    requires
        is_digit(d),
        all_digits(t),
    ensures
        digits_val(seq![d] + t) == (d - 48) * pow10(t.len()) + digits_val(t),
    decreases t.len(),
{
    let s = seq![d] + t;
    assert(digits_val(Seq::<u8>::empty()) == 0);
    if t.len() == 0 {
        assert(s =~= seq![d]);
        assert(s.drop_last() =~= Seq::<u8>::empty());
        assert(s.last() == d);
        assert(digits_val(s) == (d - 48) as int);
        assert(pow10(0) == 1);
    } else {
        assert(s.drop_last() =~= seq![d] + t.drop_last());
        assert(all_digits(t.drop_last()));
        lemma_digits_val_prepend(d, t.drop_last());
        assert(s.last() == t.last());
        let dd = (d - 48) as int;
        let p = pow10((t.len() - 1) as nat);
        assert(pow10(t.len()) == 10 * p);
        assert((dd * p + digits_val(t.drop_last())) * 10 == dd * (10 * p) + digits_val(
            t.drop_last(),
        ) * 10) by (nonlinear_arith);
    }
}

/// The canonical decimal numeral of `n`: most significant digit first, no
/// leading zeros.
pub open spec fn dec_digits(n: nat) -> Seq<u8>
    decreases n,
{
    if n < 10 {
        seq![(n + 48) as u8]
    } else {
        dec_digits(n / 10) + seq![(n % 10 + 48) as u8]
    }
}

/// The canonical numeral reads back to its number, consists of digits, and
/// carries no leading zero.
pub proof fn lemma_dec_digits_props(n: nat)
    ensures
        dec_digits(n).len() > 0,
        all_digits(dec_digits(n)),
        digits_val(dec_digits(n)) == n,
        dec_digits(n)[0] == 48 ==> n == 0,
    decreases n,
{
    if n < 10 {
        assert(dec_digits(n) =~= seq![(n + 48) as u8]);
        assert(dec_digits(n).drop_last() =~= Seq::<u8>::empty());
        assert(digits_val(Seq::<u8>::empty()) == 0);
    } else {
        lemma_dec_digits_props(n / 10);
        let s = dec_digits(n);
        let h = dec_digits(n / 10);
        assert(s.drop_last() =~= h);
        assert(s.last() == (n % 10 + 48) as u8);
        vstd::arithmetic::div_mod::lemma_fundamental_div_mod(n as int, 10);
        assert(s[0] == h[0]);
    }
}

/// Render an unsigned integer as decimal digits, without leading zeros.
pub fn format_u64(n: u64) -> (r: Vec<u8>)
    ensures
        r@ == dec_digits(n as nat),
{
    if n == 0 {
        let mut r: Vec<u8> = Vec::new();
        r.push(48);
        proof {
            assert(r@ =~= dec_digits(0));
        }
        return r;
    }
    // Digits are gathered least significant first, then reversed.
    let mut low: Vec<u8> = Vec::new();
    let mut cur: u64 = n;
    proof {
        assert(low@.reverse() =~= Seq::<u8>::empty());
    }
    while cur > 0
        invariant
            cur > 0 ==> dec_digits(n as nat) == dec_digits(cur as nat) + low@.reverse(),
            cur == 0 ==> dec_digits(n as nat) == low@.reverse(),
        decreases cur,
    {
        let d: u8 = (cur % 10) as u8 + 48;
        let next = cur / 10;
        proof {
            let lr = low@.reverse();
            let lr2 = low@.push(d).reverse();
            assert(lr2 =~= seq![d] + lr);
            if cur < 10 {
                assert(dec_digits(cur as nat) =~= seq![d]);
                assert(dec_digits(cur as nat) + lr =~= seq![d] + lr);
            } else {
                assert(dec_digits(cur as nat) =~= dec_digits(cur as nat / 10) + seq![d]);
                assert((dec_digits(cur as nat / 10) + seq![d]) + lr =~= dec_digits(
                    cur as nat / 10,
                ) + (seq![d] + lr));
            }
        }
        low.push(d);
        cur = next;
    }
    // Reverse into most-significant-first order.
    let k = low.len();
    let mut r: Vec<u8> = Vec::new();
    let mut i: usize = 0;
    while i < k
        invariant
            0 <= i <= k,
            k == low@.len(),
            r@.len() == i,
            forall|j: int| 0 <= j < i ==> r@[j] == low@[k - 1 - j],
        decreases k - i,
    {
        r.push(low[k - 1 - i]);
        i = i + 1;
    }
    proof {
        assert(r@ =~= low@.reverse());
    }
    r
}


/// Sum of a sequence of integers.
pub open spec fn spec_sum(s: Seq<int>) -> int
    decreases s.len(),
{
    if s.len() == 0 {
        0
    } else {
        spec_sum(s.drop_last()) + s.last()
    }
}

/// Arithmetic mean, truncated toward zero.  Truncation (not rounding) is the
/// documented policy for every averaged channel.
pub open spec fn spec_mean(s: Seq<int>) -> int
    recommends
        s.len() > 0,
{
    let q = spec_sum(s);
    if q >= 0 {
        q / (s.len() as int)
    } else {
        -((-q) / (s.len() as int))
    }
}

/// A sum of bounded elements is bounded by its length times the bounds.
proof fn lemma_sum_bounds(s: Seq<int>, lo: int, hi: int)
    requires
        forall|i: int| 0 <= i < s.len() ==> lo <= #[trigger] s[i] <= hi,
    ensures
        s.len() as int * lo <= spec_sum(s) <= s.len() as int * hi,
    decreases s.len(),
{
    if s.len() == 0 {
        assert(s.len() as int * lo == 0);
        assert(s.len() as int * hi == 0);
    } else {
        assert(forall|i: int| 0 <= i < s.len() - 1 ==> s.drop_last()[i] == s[i]);
        lemma_sum_bounds(s.drop_last(), lo, hi);
        assert((s.len() - 1) as int * hi + hi == s.len() as int * hi) by (nonlinear_arith);
        assert((s.len() - 1) as int * lo + lo == s.len() as int * lo) by (nonlinear_arith);
        assert(lo <= s.last() <= hi);
    }
}

/// Mean of `v` in micro-units, truncated toward zero.
#[verifier::loop_isolation(false)]
pub fn mean_i64(v: &Vec<i64>) -> (r: i64)
    requires
        v@.len() > 0,
    ensures
        r == spec_mean(v@.map_values(|y: i64| y as int)),
{
    let ghost vs = v@.map_values(|y: i64| y as int);
    let n = v.len();
    let mut acc: i128 = 0;
    let mut i: usize = 0;
    proof {
        assert(vs.take(0) =~= Seq::<int>::empty());
    }
    while i < n
        invariant
            0 <= i <= n,
            acc == spec_sum(vs.take(i as int)),
            i as int * (-0x8000_0000_0000_0000) <= acc <= i as int * 0x7fff_ffff_ffff_ffff,
        decreases n - i,
    {
        proof {
            assert(vs.take(i + 1).drop_last() =~= vs.take(i as int));
            assert(vs.take(i + 1).last() == v@[i as int] as int);
        }
        acc = acc + v[i] as i128;
        i = i + 1;
    }
    proof {
        assert(vs.take(n as int) =~= vs);
        assert forall|j: int| 0 <= j < vs.len() implies -0x8000_0000_0000_0000 <= #[trigger] vs[j]
            <= 0x7fff_ffff_ffff_ffff by {
            assert(vs[j] == v@[j] as int);
        }
        lemma_sum_bounds(vs, -0x8000_0000_0000_0000, 0x7fff_ffff_ffff_ffff);
    }
    if acc >= 0 {
        let q: u128 = acc as u128 / n as u128;
        proof {
            // The mean of values at most i64::MAX is itself at most i64::MAX.
            vstd::arithmetic::div_mod::lemma_div_is_ordered(
                spec_sum(vs),
                n as int * 0x7fff_ffff_ffff_ffff,
                n as int,
            );
            vstd::arithmetic::div_mod::lemma_div_multiples_vanish(0x7fff_ffff_ffff_ffff, n as int);
            assert(n as int * 0x7fff_ffff_ffff_ffff == (n as int) * 0x7fff_ffff_ffff_ffff);
            vstd::arithmetic::div_mod::lemma_div_pos_is_pos(spec_sum(vs), n as int);
        }
        q as i64
    } else {
        let m: u128 = (-acc) as u128 / n as u128;
        proof {
            // The magnitude of the mean never exceeds the largest magnitude.
            vstd::arithmetic::div_mod::lemma_div_is_ordered(
                -spec_sum(vs),
                n as int * 0x8000_0000_0000_0000,
                n as int,
            );
            vstd::arithmetic::div_mod::lemma_div_multiples_vanish(0x8000_0000_0000_0000, n as int);
            vstd::arithmetic::div_mod::lemma_div_pos_is_pos(-spec_sum(vs), n as int);
        }
        (-(m as i128)) as i64
    }
}

/// `pat` occurs in `s` at position `i`.
pub open spec fn matches_at(s: Seq<u8>, pat: Seq<u8>, i: int) -> bool {
    0 <= i && i + pat.len() <= s.len() && s.subrange(i, i + pat.len()) == pat
}

/// Index of the first occurrence of `pat` in `s`, or -1 when absent.
pub open spec fn spec_find_sub(s: Seq<u8>, pat: Seq<u8>) -> int
    decreases s.len(),
{
    if pat.len() > s.len() {
        -1
    } else if s.take(pat.len() as int) == pat {
        0
    } else if s.len() == 0 {
        -1
    } else {
        let r = spec_find_sub(s.skip(1), pat);
        if r == -1 {
            -1
        } else {
            1 + r
        }
    }
}

/// What `spec_find_sub` returns: -1 and no occurrence anywhere, or the first
/// index at which `pat` occurs.
pub proof fn lemma_spec_find_sub(s: Seq<u8>, pat: Seq<u8>)
    ensures
        spec_find_sub(s, pat) == -1 ==> forall|i: int| !matches_at(s, pat, i),
        spec_find_sub(s, pat) != -1 ==> {
            &&& matches_at(s, pat, spec_find_sub(s, pat))
            &&& forall|i: int| 0 <= i < spec_find_sub(s, pat) ==> !matches_at(s, pat, i)
        },
    decreases s.len(),
{
    if pat.len() > s.len() {
    } else if s.take(pat.len() as int) == pat {
        assert(s.subrange(0, pat.len() as int) =~= s.take(pat.len() as int));
    } else if s.len() == 0 {
        assert(s.take(pat.len() as int) =~= s);
        assert(pat =~= s);
    } else {
        let t = s.skip(1);
        lemma_spec_find_sub(t, pat);
        assert forall|i: int| 1 <= i && i + pat.len() <= s.len() implies (matches_at(s, pat, i)
            <==> matches_at(t, pat, i - 1)) by {
            assert(s.subrange(i, i + pat.len() as int) =~= t.subrange(
                i - 1,
                i - 1 + pat.len() as int,
            ));
        }
        assert(!matches_at(s, pat, 0)) by {
            assert(s.subrange(0, pat.len() as int) =~= s.take(pat.len() as int));
        }
    }
}

/// First index at which `pat` occurs in `s`, if any.
#[verifier::loop_isolation(false)]
pub fn find_subslice(s: &[u8], pat: &[u8]) -> (r: Option<usize>)
    ensures
        r is Some <==> spec_find_sub(s@, pat@) != -1,
        r is Some ==> r->Some_0 == spec_find_sub(s@, pat@),
{
    proof {
        lemma_spec_find_sub(s@, pat@);
    }
    let n = s.len();
    let m = pat.len();
    if m > n {
        return None;
    }
    let mut i: usize = 0;
    while i <= n - m
        invariant
            0 <= i <= n - m + 1,
            m <= n,
            forall|j: int| 0 <= j < i ==> !matches_at(s@, pat@, j),
        decreases n - i,
    {
        let window = &s[i..i + m];
        proof {
            assert(window@ =~= s@.subrange(i as int, i + m));
        }
        if bytes_eq(window, pat) {
            proof {
                assert(matches_at(s@, pat@, i as int));
                let f = spec_find_sub(s@, pat@);
                if f == -1 {
                    assert(!matches_at(s@, pat@, i as int));
                } else if f < i {
                    assert(!matches_at(s@, pat@, f));
                    assert(matches_at(s@, pat@, f));
                } else if f > i {
                    assert(!matches_at(s@, pat@, i as int));
                }
            }
            return Some(i);
        }
        proof {
            if m == 0 {
                // An empty pattern always matches, so this path is unreachable.
                assert(window@ =~= pat@);
            }
            assert(!matches_at(s@, pat@, i as int));
        }
        i = i + 1;
    }
    proof {
        assert forall|j: int| !matches_at(s@, pat@, j) by {
            if 0 <= j && j + pat@.len() <= s@.len() {
                assert(j < i);
            }
        }
    }
    None
}

/// `s` divided at every occurrence of `sep`; separators are dropped, empty
/// pieces kept, and a string without separators is a single piece.
pub open spec fn spec_split(s: Seq<u8>, sep: u8) -> Seq<Seq<u8>>
    decreases s.len(),
{
    let i = spec_find(s, sep);
    if 0 <= i < s.len() {
        seq![s.take(i)] + spec_split(s.skip(i + 1), sep)
    } else {
        seq![s]
    }
}

/// Split `s` at every occurrence of `sep`.
#[verifier::loop_isolation(false)]
pub fn split_bytes(s: &[u8], sep: u8) -> (r: Vec<Vec<u8>>)
    ensures
        r@.map_values(|v: Vec<u8>| v@) == spec_split(s@, sep),
{
    let n = s.len();
    let mut parts: Vec<Vec<u8>> = Vec::new();
    let mut start: usize = 0;
    proof {
        assert(s@.skip(0) =~= s@);
        assert(spec_split(s@, sep) =~~= parts@.map_values(|v: Vec<u8>| v@) + spec_split(
            s@.skip(0),
            sep,
        ));
    }
    loop
        invariant
            start <= n,
            spec_split(s@, sep) =~~= parts@.map_values(|v: Vec<u8>| v@) + spec_split(
                s@.skip(start as int),
                sep,
            ),
        decreases n - start,
    {
        let rest = &s[start..n];
        proof {
            assert(rest@ =~= s@.skip(start as int));
            lemma_spec_find(rest@, sep);
        }
        match find_byte(rest, sep) {
            None => {
                let ghost old_parts = parts@;
                parts.push(vstd::slice::slice_to_vec(rest));
                proof {
                    assert(spec_split(rest@, sep) =~~= seq![rest@]);
                    assert(parts@.map_values(|v: Vec<u8>| v@) =~~= old_parts.map_values(
                        |v: Vec<u8>| v@,
                    ).push(rest@));
                }
                return parts;
            },
            Some(k) => {
                let piece = &rest[0..k];
                let ghost old_parts = parts@;
                parts.push(vstd::slice::slice_to_vec(piece));
                proof {
                    assert(piece@ =~= rest@.take(k as int));
                    assert(spec_split(rest@, sep) =~~= seq![rest@.take(k as int)] + spec_split(
                        rest@.skip(k + 1),
                        sep,
                    ));
                    assert(rest@.skip(k + 1) =~= s@.skip(start + k + 1));
                    assert(parts@.map_values(|v: Vec<u8>| v@) =~~= old_parts.map_values(
                        |v: Vec<u8>| v@,
                    ).push(piece@));
                }
                start = start + k + 1;
            },
        }
    }
}

/// Number of occurrences of `v` in `s`.
pub open spec fn count_of(s: Seq<int>, v: int) -> int
    decreases s.len(),
{
    if s.len() == 0 {
        0
    } else {
        count_of(s.drop_last(), v) + if s.last() == v {
            1int
        } else {
            0int
        }
    }
}

proof fn lemma_count_le_len(s: Seq<int>, v: int)
    ensures
        0 <= count_of(s, v) <= s.len(),
    decreases s.len(),
{
    if s.len() > 0 {
        lemma_count_le_len(s.drop_last(), v);
    }
}

/// Occurrences of `x` in `v`.
#[verifier::loop_isolation(false)]
fn count_i64(v: &Vec<i64>, x: i64) -> (c: usize)
    ensures
        c == count_of(v@.map_values(|y: i64| y as int), x as int),
{
    let ghost vs = v@.map_values(|y: i64| y as int);
    let n = v.len();
    let mut c: usize = 0;
    let mut i: usize = 0;
    proof {
        assert(vs.take(0) =~= Seq::<int>::empty());
    }
    while i < n
        invariant
            0 <= i <= n,
            c == count_of(vs.take(i as int), x as int),
        decreases n - i,
    {
        proof {
            assert(vs.take(i + 1).drop_last() =~= vs.take(i as int));
            assert(vs.take(i + 1).last() == v@[i as int] as int);
            lemma_count_le_len(vs.take(i as int), x as int);
        }
        if v[i] == x {
            c = c + 1;
        }
        i = i + 1;
    }
    proof {
        assert(vs.take(n as int) =~= vs);
    }
    c
}

/// `v` is the statistical mode of `s`: a most frequent element, the lowest
/// among equally frequent candidates.
pub open spec fn is_mode(s: Seq<int>, v: int) -> bool {
    &&& s.contains(v)
    &&& forall|x: int| s.contains(x) ==> count_of(s, x) <= count_of(s, v)
    &&& forall|x: int| s.contains(x) && count_of(s, x) == count_of(s, v) ==> v <= x
}

/// The mode of a non-empty sequence; pinned down uniquely by `is_mode`.
pub open spec fn spec_mode(s: Seq<int>) -> int {
    choose|v: int| is_mode(s, v)
}

/// At most one value satisfies `is_mode`.
pub proof fn lemma_mode_unique(s: Seq<int>, v1: int, v2: int)
    requires
        is_mode(s, v1),
        is_mode(s, v2),
    ensures
        v1 == v2,
{
    assert(count_of(s, v1) <= count_of(s, v2));
    assert(count_of(s, v2) <= count_of(s, v1));
}

/// The statistical mode of `v`: the most frequent value, with ties broken by
/// the lowest value among the tied candidates.
#[verifier::loop_isolation(false)]
pub fn mode_i64(v: &Vec<i64>) -> (r: i64)
    requires
        v@.len() > 0,
    ensures
        is_mode(v@.map_values(|y: i64| y as int), r as int),
        r as int == spec_mode(v@.map_values(|y: i64| y as int)),
{
    let ghost vs = v@.map_values(|y: i64| y as int);
    let n = v.len();
    let mut best: i64 = v[0];
    let mut bc: usize = count_i64(v, best);
    proof {
        assert(vs[0] == v@[0] as int);
    }
    let mut i: usize = 1;
    while i < n
        invariant
            1 <= i <= n,
            vs.contains(best as int),
            bc == count_of(vs, best as int),
            forall|j: int|
                0 <= j < i ==> count_of(vs, #[trigger] vs[j]) <= bc && (count_of(vs, vs[j]) == bc
                    ==> best as int <= vs[j]),
        decreases n - i,
    {
        let c = count_i64(v, v[i]);
        proof {
            assert(vs[i as int] == v@[i as int] as int);
        }
        if c > bc || (c == bc && v[i] < best) {
            best = v[i];
            bc = c;
        }
        i = i + 1;
    }
    proof {
        assert forall|x: int| vs.contains(x) implies count_of(vs, x) <= count_of(
            vs,
            best as int,
        ) by {
            let j = choose|j: int| 0 <= j < vs.len() && vs[j] == x;
            assert(count_of(vs, vs[j]) <= bc);
        }
        assert forall|x: int|
            vs.contains(x) && count_of(vs, x) == count_of(vs, best as int) implies best as int
            <= x by {
            let j = choose|j: int| 0 <= j < vs.len() && vs[j] == x;
            assert(count_of(vs, vs[j]) == bc ==> best as int <= vs[j]);
        }
        assert(is_mode(vs, best as int));
        lemma_mode_unique(vs, best as int, spec_mode(vs));
    }
    best
}

} // verus!
