//! PDF numbers, kept as integers or exact decimals.
use vstd::prelude::*;
use crate::chars::{digit, is_digit};
use crate::decimal::{decimal_digits, push_decimal, push_range, is_ascii_seq, lemma_decimal_digits_ascii};

verus! {

/// The most decimal digits a number token may have.
pub const MAX_NUMBER_DIGITS: usize = 18;

#[derive(Clone, Copy, Debug, PartialEq, Eq, Structural)]
enum NumberRepr {
    Integer(i32),
    Real(i64, u8),
}

/// A PDF number: an integer, or a real held exactly as `mantissa / 10^scale`
/// with no trailing zero in the mantissa when the scale is positive.
#[derive(Clone, Copy, Debug, PartialEq, Eq, Structural)]
pub struct Number {
    repr: NumberRepr,
}

/// The value of a sequence of ASCII digits.
pub open spec fn digits_value(d: Seq<u8>) -> nat
    decreases d.len(),
{
    if d.len() == 0 {
        0
    } else {
        digits_value(d.drop_last()) * 10 + (d.last() - 48) as nat
    }
}

pub open spec fn all_digits(d: Seq<u8>) -> bool {
    forall|i: int| 0 <= i < d.len() ==> is_digit(#[trigger] d[i])
}

/// Strip trailing zeros of a magnitude while the scale is positive.
pub open spec fn normalize(m: nat, s: nat) -> (nat, nat)
    decreases s,
{
    if s > 0 && m % 10 == 0 {
        normalize(m / 10, (s - 1) as nat)
    } else {
        (m, s)
    }
}

pub open spec fn pow10(n: nat) -> nat
    decreases n,
{
    if n == 0 {
        1
    } else {
        10 * pow10((n - 1) as nat)
    }
}

/// Index of the first `.` in `b`, or its length.
pub open spec fn first_dot(b: Seq<u8>) -> nat
    decreases b.len(),
{
    if b.len() == 0 {
        0
    } else if b[0] == 46 {
        0
    } else {
        1 + first_dot(b.drop_first())
    }
}

impl Number {
    pub closed spec fn is_integer(self) -> bool {
        self.repr is Integer
    }

    /// The integer value of an integer number.
    pub closed spec fn int_value(self) -> int {
        match self.repr {
            NumberRepr::Integer(i) => i as int,
            NumberRepr::Real(m, _) => m as int,
        }
    }

    /// A number as the library makes it: a real's mantissa has no trailing
    /// zero when its scale is positive.
    pub closed spec fn wf(self) -> bool {
        match self.repr {
            NumberRepr::Integer(_) => true,
            NumberRepr::Real(m, s) => s > 0 ==> (m as int) % 10 != 0,
        }
    }

    /// The number of digits in the text of the number.
    pub closed spec fn text_digits(self) -> nat {
        match self.repr {
            NumberRepr::Integer(i) => decimal_digits(
                (if i < 0 { -(i as int) } else { i as int }) as nat,
            ).len(),
            NumberRepr::Real(m, s) => padded_digits(
                (if m < 0 { -(m as int) } else { m as int }) as nat,
                s as nat,
            ).len() + if s == 0 { 1nat } else { 0nat },
        }
    }

    /// The scale of a real number (0 for integers).
    pub closed spec fn scale(self) -> nat {
        match self.repr {
            NumberRepr::Integer(_) => 0,
            NumberRepr::Real(_, s) => s as nat,
        }
    }

    /// The real `mantissa / 10^scale`.
    pub fn from_decimal(mantissa: i64, scale: u8) -> (r: Number)
        requires
            -1_000_000_000_000_000_000 < mantissa < 1_000_000_000_000_000_000,
        ensures
            r.wf(),
            r == number_from_parts(
                mantissa < 0,
                (if mantissa < 0 { -mantissa } else { mantissa as int }) as nat,
                scale as nat,
                true,
            ),
    {
        let m: u64 = if mantissa < 0 {
            (-(mantissa as i128)) as u64
        } else {
            mantissa as u64
        };
        proof {
            lemma_number_from_parts_wf(mantissa < 0, m as nat, scale as nat, true);
        }
        make_number(mantissa < 0, m, scale, true)
    }

    /// The parts of the number: whether it is an integer, its integer value
    /// or mantissa, and its scale.
    pub fn to_parts(&self) -> (r: (bool, i64, u8))
        ensures
            r.0 == self.is_integer(),
            r.1 == self.int_value(),
            r.2 == self.scale(),
    {
        match self.repr {
            NumberRepr::Integer(i) => (true, i as i64, 0),
            NumberRepr::Real(m, s) => (false, m, s),
        }
    }

    pub fn from_i32(value: i32) -> (r: Number)
        ensures
            r.wf(),
            r.is_integer(),
            r.int_value() == value,
    {
        Number { repr: NumberRepr::Integer(value) }
    }
}

/// The number a valid numeric token denotes: the sign, the digits before and
/// after the dot, and whether a dot was written.
pub closed spec fn number_from_parts(neg: bool, m: nat, frac_len: nat, has_dot: bool) -> Number {
    let v: int = if neg { -m } else { m as int };
    if !has_dot && i32::MIN <= v <= i32::MAX {
        Number { repr: NumberRepr::Integer(v as i32) }
    } else {
        let (nm, ns) = normalize(m, frac_len);
        let nv: int = if neg { -nm } else { nm as int };
        Number { repr: NumberRepr::Real(nv as i64, ns as u8) }
    }
}

/// The digits written before the dot (all of them when there is none).
pub open spec fn int_part(body: Seq<u8>) -> Seq<u8> {
    body.subrange(0, first_dot(body) as int)
}

/// The digits written after the dot (none when there is no dot).
pub open spec fn frac_part(body: Seq<u8>) -> Seq<u8> {
    if first_dot(body) < body.len() {
        body.subrange(first_dot(body) as int + 1, body.len() as int)
    } else {
        Seq::<u8>::empty()
    }
}

/// The number that an unsigned numeric body denotes.
pub open spec fn parse_body(neg: bool, body: Seq<u8>) -> Option<Number> {
    let ip = int_part(body);
    let fp = frac_part(body);
    if all_digits(ip) && all_digits(fp) && 1 <= ip.len() + fp.len() <= MAX_NUMBER_DIGITS {
        Some(number_from_parts(neg, digits_value(ip + fp), fp.len(), first_dot(body) < body.len()))
    } else {
        None
    }
}

/// The number that a token of regular characters denotes, if it is numeric:
/// an optional sign, then digits with at most one dot, at least one digit and
/// at most `MAX_NUMBER_DIGITS` of them.
pub open spec fn spec_parse_number(t: Seq<u8>) -> Option<Number> {
    if t.len() > 0 && (t[0] == 43 || t[0] == 45) {
        parse_body(t[0] == 45, t.drop_first())
    } else {
        parse_body(false, t)
    }
}

/// Decimal text of an integer, with a leading `-` when negative.
pub open spec fn signed_text(v: int) -> Seq<u8> {
    if v < 0 {
        seq![45u8] + decimal_digits((-v) as nat)
    } else {
        decimal_digits(v as nat)
    }
}

pub open spec fn zeros(n: nat) -> Seq<u8> {
    Seq::new(n, |i: int| 48u8)
}

/// Text of the real `m / 10^s`: the digits with a dot `s` places from the
/// right, at least one digit before the dot and at least one after it.
pub open spec fn real_text(m: int, s: nat) -> Seq<u8> {
    let a: nat = if m < 0 { (-m) as nat } else { m as nat };
    let padded = padded_digits(a, s);
    let sign = if m < 0 { seq![45u8] } else { Seq::<u8>::empty() };
    let frac = if s == 0 { seq![48u8] } else { padded.subrange(padded.len() - s, padded.len() as int) };
    sign + padded.subrange(0, padded.len() - s) + seq![46u8] + frac
}

/// The text of a number: integers in decimal, reals with a dot.
pub closed spec fn number_text(n: Number) -> Seq<u8> {
    match n.repr {
        NumberRepr::Integer(i) => signed_text(i as int),
        NumberRepr::Real(m, s) => real_text(m as int, s as nat),
    }
}

pub proof fn lemma_number_text_ascii(n: Number)
    ensures
        is_ascii_seq(number_text(n)),
{
    match n.repr {
        NumberRepr::Integer(i) => {
            let v = i as int;
            if v < 0 {
                lemma_decimal_digits_ascii((-v) as nat);
            } else {
                lemma_decimal_digits_ascii(v as nat);
            }
        },
        NumberRepr::Real(m, sc) => {
            let mi = m as int;
            let a: nat = if mi < 0 { (-mi) as nat } else { mi as nat };
            lemma_decimal_digits_ascii(a);
        },
    }
}

/// The digits of `a`, padded with leading zeros to more than `s` of them.
pub open spec fn padded_digits(a: nat, s: nat) -> Seq<u8> {
    let ds = decimal_digits(a);
    if ds.len() < s + 1 { zeros((s + 1 - ds.len()) as nat) + ds } else { ds }
}

fn padded_digits_exec(a: u64, s: usize) -> (r: Vec<u8>)
    requires
        s < 256,
    ensures
        r@ == padded_digits(a as nat, s as nat),
        r@.len() > s,
{
    let mut ds: Vec<u8> = Vec::new();
    push_decimal(&mut ds, a);
    let mut padded: Vec<u8> = Vec::new();
    let dl = ds.len();
    if dl < s + 1 {
        let mut k: usize = 0;
        while k < s + 1 - dl
            invariant
                s < 256,
                dl < s + 1,
                k <= s + 1 - dl,
                padded@ == zeros(k as nat),
            decreases s + 1 - dl - k,
        {
            padded.push(48);
            k = k + 1;
            assert(padded@ == zeros(k as nat));
        }
    }
    push_range(&mut padded, &ds, 0, dl);
    assert(ds@.subrange(0, dl as int) == ds@);
    padded
}

fn push_real(out: &mut Vec<u8>, m: i64, sc: u8)
    ensures
        final(out)@ == old(out)@ + real_text(m as int, sc as nat),
{
    let a: u64 = if m < 0 {
        (-(m as i128)) as u64
    } else {
        m as u64
    };
    let s = sc as usize;
    let padded = padded_digits_exec(a, s);
    let ghost o0 = out@;
    if m < 0 {
        out.push(45);
    }
    let ghost o1 = out@;
    let pl = padded.len();
    push_range(out, &padded, 0, pl - s);
    out.push(46);
    let ghost o2 = out@;
    if s == 0 {
        out.push(48);
    } else {
        push_range(out, &padded, pl - s, pl);
    }
    proof {
        let sign = if m < 0 { seq![45u8] } else { Seq::<u8>::empty() };
        let frac = if s == 0 { seq![48u8] } else { padded@.subrange(pl - s, pl as int) };
        assert(o1 == o0 + sign);
        assert(o2 == o0 + sign + padded@.subrange(0, pl - s) + seq![46u8]);
        assert(out@ == o2 + frac);
    }
}

/// Append the text of `n` to `out`.
pub fn push_number(out: &mut Vec<u8>, n: &Number)
    ensures
        final(out)@ == old(out)@ + number_text(*n),
{
    match n.repr {
        NumberRepr::Integer(i) => {
            if i < 0 {
                out.push(45);
                push_decimal(out, (-(i as i64)) as u64);
                assert(out@ == old(out)@ + signed_text(i as int));
            } else {
                push_decimal(out, i as u64);
            }
        },
        NumberRepr::Real(m, sc) => {
            push_real(out, m, sc);
        },
    }
}

pub proof fn lemma_first_dot(b: Seq<u8>, k: nat)
    requires
        k <= b.len(),
        forall|j: int| 0 <= j < k ==> b[j] != 46,
        k == b.len() || b[k as int] == 46,
    ensures
        first_dot(b) == k,
    decreases b.len(),
{
    if b.len() > 0 && k > 0 {
        lemma_first_dot(b.drop_first(), (k - 1) as nat);
    }
}

pub proof fn lemma_digits_value_bound(d: Seq<u8>)
    requires
        all_digits(d),
    ensures
        digits_value(d) < pow10(d.len()),
    decreases d.len(),
{
    if d.len() > 0 {
        let p = d.drop_last();
        assert(all_digits(p)) by {
            assert forall|i: int| 0 <= i < p.len() implies is_digit(#[trigger] p[i]) by {
                assert(p[i] == d[i]);
            }
        }
        lemma_digits_value_bound(p);
        assert(is_digit(d[d.len() - 1]));
        let x = digits_value(p);
        assert(x + 1 <= pow10(p.len()));
        assert((x + 1) * 10 <= pow10(p.len()) * 10) by (nonlinear_arith)
            requires x + 1 <= pow10(p.len());
    }
}

proof fn lemma_pow10_18()
    ensures
        pow10(18) == 1_000_000_000_000_000_000,
{
    reveal_with_fuel(pow10, 19);
}

/// Strip trailing decimal zeros of a magnitude while the scale is positive.
fn normalize_exec(m: u64, s: u8) -> (r: (u64, u8))
    ensures
        r.0 as nat == normalize(m as nat, s as nat).0,
        r.1 as nat == normalize(m as nat, s as nat).1,
        r.0 <= m,
        r.1 <= s,
{
    let mut m2 = m;
    let mut s2 = s;
    while s2 > 0 && m2 % 10 == 0
        invariant
            normalize(m2 as nat, s2 as nat) == normalize(m as nat, s as nat),
            m2 <= m,
            s2 <= s,
        decreases s2,
    {
        m2 = m2 / 10;
        s2 = s2 - 1;
    }
    (m2, s2)
}

fn make_number(neg: bool, m: u64, frac_len: u8, has_dot: bool) -> (r: Number)
    requires
        m < 1_000_000_000_000_000_000,
    ensures
        r == number_from_parts(neg, m as nat, frac_len as nat, has_dot),
{
    if !has_dot && m <= 2147483648 && (neg || m <= 2147483647) {
        let v: i32 = if neg {
            if m == 2147483648 {
                i32::MIN
            } else {
                -(m as i32)
            }
        } else {
            m as i32
        };
        Number { repr: NumberRepr::Integer(v) }
    } else {
        let (nm, ns) = normalize_exec(m, frac_len);
        let v: i64 = if neg {
            -(nm as i64)
        } else {
            nm as i64
        };
        Number { repr: NumberRepr::Real(v, ns) }
    }
}

/// Parse the numeric token `s[start..end]`.
#[verifier::rlimit(60)]
pub fn parse_number(s: &[u8], start: usize, end: usize) -> (r: Option<Number>)
    requires
        start <= end <= s.len(),
    ensures
        r == spec_parse_number(s@.subrange(start as int, end as int)),
{
    let ghost t = s@.subrange(start as int, end as int);
    let mut i = start;
    let mut neg = false;
    if i < end && (s[i] == 43 || s[i] == 45) {
        neg = s[i] == 45;
        i = i + 1;
    }
    let bs = i;
    let ghost body = s@.subrange(bs as int, end as int);
    assert(body == if t.len() > 0 && (t[0] == 43 || t[0] == 45) { t.drop_first() } else { t });
    assert(spec_parse_number(t) == parse_body(neg, body));
    let mut m: u64 = 0;
    let mut ndigits: usize = 0;
    let mut has_dot = false;
    let mut dot: usize = 0;
    let mut frac_len: usize = 0;
    proof {
        lemma_pow10_18();
    }
    while i < end
        invariant
            bs <= i <= end <= s.len(),
            body == s@.subrange(bs as int, end as int),
            t == s@.subrange(start as int, end as int),
            spec_parse_number(t) == parse_body(neg, body),
            pow10(18) == 1_000_000_000_000_000_000,
            has_dot ==> bs <= dot < i && s@[dot as int] == 46,
            has_dot ==> forall|j: int| bs <= j < i && j != dot ==> is_digit(#[trigger] s@[j]),
            !has_dot ==> forall|j: int| bs <= j < i ==> is_digit(#[trigger] s@[j]),
            ndigits == (i - bs) - (if has_dot { 1int } else { 0int }),
            ndigits <= MAX_NUMBER_DIGITS,
            frac_len == (if has_dot { i - dot - 1 } else { 0int }),
            m as nat == digits_value(
                if has_dot {
                    body.subrange(0, dot - bs) + body.subrange(dot - bs + 1, i - bs)
                } else {
                    body.subrange(0, i - bs)
                },
            ),
            m < pow10(ndigits as nat),
        decreases end - i,
    {
        let c = s[i];
        let ghost old_seq = if has_dot {
            body.subrange(0, dot - bs) + body.subrange(dot - bs + 1, i - bs)
        } else {
            body.subrange(0, i - bs)
        };
        if c == 46 {
            if has_dot {
                proof {
                    lemma_first_dot(body, (dot - bs) as nat);
                    let frac = frac_part(body);
                    assert(frac[i - dot - 1] == 46);
                    assert(!all_digits(frac));
                }
                return None;
            }
            has_dot = true;
            dot = i;
            proof {
                assert(body.subrange(0, dot - bs) + body.subrange(dot - bs + 1, i + 1 - bs)
                    == body.subrange(0, i - bs));
            }
        } else if digit(c) {
            if ndigits == MAX_NUMBER_DIGITS {
                proof {
                    lemma_first_dot_props(body);
                    if has_dot {
                        lemma_first_dot(body, (dot - bs) as nat);
                    } else {
                        let fd = first_dot(body);
                        if fd <= i - bs {
                            assert(body[fd as int] == s@[bs + fd]);
                            assert(false);
                        }
                    }
                }
                return None;
            }
            proof {
                lemma_pow10_bound(ndigits as nat);
                lemma_pow10_mono((ndigits + 1) as nat, 18);
                assert(m * 10 + 9 < pow10((ndigits + 1) as nat)) by (nonlinear_arith)
                    requires m < pow10(ndigits as nat), pow10((ndigits + 1) as nat) == 10 * pow10(ndigits as nat);
            }
            m = m * 10 + (c - 48) as u64;
            ndigits = ndigits + 1;
            if has_dot {
                frac_len = frac_len + 1;
            }
            proof {
                let new_seq = if has_dot {
                    body.subrange(0, dot - bs) + body.subrange(dot - bs + 1, i + 1 - bs)
                } else {
                    body.subrange(0, i + 1 - bs)
                };
                assert(new_seq == old_seq.push(c));
                assert(new_seq.drop_last() == old_seq);
            }
        } else {
            proof {
                lemma_first_dot_props(body);
                if has_dot {
                    lemma_first_dot(body, (dot - bs) as nat);
                    let frac = frac_part(body);
                    assert(frac[i - dot - 1] == c);
                    assert(!all_digits(frac));
                } else {
                    let fd = first_dot(body);
                    if fd <= i - bs {
                        assert(body[fd as int] == s@[bs + fd]);
                        assert(false);
                    }
                    let ip = int_part(body);
                    assert(ip[i - bs] == c);
                    assert(!all_digits(ip));
                }
            }
            return None;
        }
        i = i + 1;
    }
    if ndigits == 0 {
        proof {
            lemma_first_dot_props(body);
        }
        return None;
    }
    proof {
        if has_dot {
            lemma_first_dot(body, (dot - bs) as nat);
        } else {
            assert forall|j: int| 0 <= j < body.len() implies body[j] != 46 by {
                assert(body[j] == s@[bs + j]);
            }
            lemma_first_dot(body, body.len());
            assert(body.subrange(0, body.len() as int) == body);
        }
        let fd = first_dot(body);
        let ip = int_part(body);
        let frac = frac_part(body);
        assert(all_digits(ip)) by {
            assert forall|j: int| 0 <= j < ip.len() implies is_digit(#[trigger] ip[j]) by {
                assert(ip[j] == s@[bs + j]);
            }
        }
        assert(all_digits(frac)) by {
            assert forall|j: int| 0 <= j < frac.len() implies is_digit(#[trigger] frac[j]) by {
                assert(frac[j] == s@[bs + fd + 1 + j]);
            }
        }
        if has_dot {
            assert(body.subrange(dot - bs + 1, end - bs) == frac);
        } else {
            assert(ip + frac == body.subrange(0, end - bs));
        }
    }
    proof {
        lemma_pow10_mono(ndigits as nat, 18);
    }
    Some(make_number(neg, m, frac_len as u8, has_dot))
}

proof fn lemma_pow10_mono(a: nat, b: nat)
    requires
        a <= b,
    ensures
        pow10(a) <= pow10(b),
    decreases b,
{
    if a < b {
        lemma_pow10_mono(a, (b - 1) as nat);
    }
}

proof fn lemma_pow10_bound(n: nat)
    ensures
        pow10(n + 1) == 10 * pow10(n),
{
}

/// `first_dot` is at most the length, and names a dot when below it.
pub proof fn lemma_first_dot_props(b: Seq<u8>)
    ensures
        first_dot(b) <= b.len(),
        first_dot(b) < b.len() ==> b[first_dot(b) as int] == 46,
        forall|j: int| 0 <= j < first_dot(b) ==> b[j] != 46,
    decreases b.len(),
{
    if b.len() > 0 && b[0] != 46 {
        lemma_first_dot_props(b.drop_first());
        assert forall|j: int| 0 <= j < first_dot(b) implies b[j] != 46 by {
            if j > 0 {
                assert(b[j] == b.drop_first()[j - 1]);
            }
        }
    }
}

proof fn lemma_decimal_digits_value(a: nat)
    ensures
        all_digits(decimal_digits(a)),
        digits_value(decimal_digits(a)) == a,
        decimal_digits(a).len() >= 1,
    decreases a,
{
    if a >= 10 {
        lemma_decimal_digits_value(a / 10);
        let p = decimal_digits(a / 10);
        let d = decimal_digits(a);
        assert(d.drop_last() == p);
        assert(d.last() == (a % 10 + 48) as u8);
        assert(a == (a / 10) * 10 + a % 10);
        assert(digits_value(d) == digits_value(p) * 10 + (d.last() - 48) as nat);
        assert(all_digits(d)) by {
            assert forall|i: int| 0 <= i < d.len() implies is_digit(#[trigger] d[i]) by {
                if i < p.len() {
                    assert(d[i] == p[i]);
                }
            }
        }
    } else {
        let d = decimal_digits(a);
        assert(d.drop_last() == Seq::<u8>::empty());
        assert(digits_value(d) == digits_value(d.drop_last()) * 10 + (d.last() - 48) as nat);
    }
}

proof fn lemma_zeros_value(k: nat)
    ensures
        digits_value(zeros(k)) == 0,
        all_digits(zeros(k)),
    decreases k,
{
    if k > 0 {
        lemma_zeros_value((k - 1) as nat);
        assert(zeros(k).drop_last() == zeros((k - 1) as nat));
    }
}

proof fn lemma_zeros_prefix_value(k: nat, ds: Seq<u8>)
    ensures
        digits_value(zeros(k) + ds) == digits_value(ds),
    decreases ds.len(),
{
    if ds.len() == 0 {
        lemma_zeros_value(k);
        assert(zeros(k) + ds == zeros(k));
    } else {
        lemma_zeros_prefix_value(k, ds.drop_last());
        assert((zeros(k) + ds).drop_last() == zeros(k) + ds.drop_last());
        assert((zeros(k) + ds).last() == ds.last());
    }
}

proof fn lemma_padded_digits(a: nat, s: nat)
    ensures
        all_digits(padded_digits(a, s)),
        digits_value(padded_digits(a, s)) == a,
        padded_digits(a, s).len() >= s + 1,
{
    lemma_decimal_digits_value(a);
    let ds = decimal_digits(a);
    if ds.len() < s + 1 {
        let z = zeros((s + 1 - ds.len()) as nat);
        lemma_zeros_value((s + 1 - ds.len()) as nat);
        lemma_zeros_prefix_value((s + 1 - ds.len()) as nat, ds);
        assert(all_digits(z + ds)) by {
            assert forall|i: int| 0 <= i < (z + ds).len() implies is_digit(#[trigger] (z + ds)[i]) by {
                if i < z.len() {
                    assert((z + ds)[i] == z[i]);
                } else {
                    assert((z + ds)[i] == ds[i - z.len()]);
                }
            }
        }
    }
}

proof fn lemma_no_dot(d: Seq<u8>)
    requires
        all_digits(d),
    ensures
        first_dot(d) == d.len(),
{
    assert forall|j: int| 0 <= j < d.len() implies d[j] != 46 by {
        assert(is_digit(d[j]));
    }
    lemma_first_dot(d, d.len());
}

/// The number that unsigned digits `x`, a dot and digits `f` denote.
proof fn lemma_parse_dotted(neg: bool, x: Seq<u8>, f: Seq<u8>)
    requires
        all_digits(x),
        all_digits(f),
        1 <= x.len() + f.len() <= MAX_NUMBER_DIGITS,
    ensures
        parse_body(neg, x + seq![46u8] + f) == Some(number_from_parts(neg, digits_value(x + f), f.len(), true)),
{
    let body = x + seq![46u8] + f;
    assert forall|j: int| 0 <= j < x.len() implies body[j] != 46 by {
        assert(body[j] == x[j]);
        assert(is_digit(x[j]));
    }
    lemma_first_dot(body, x.len());
    assert(int_part(body) == x);
    assert(frac_part(body) == f);
}

proof fn lemma_integer_text_roundtrip(i: i32)
    requires
        decimal_digits((if i < 0 { -(i as int) } else { i as int }) as nat).len() <= MAX_NUMBER_DIGITS,
    ensures
        spec_parse_number(signed_text(i as int)) == Some(Number { repr: NumberRepr::Integer(i) }),
{
    let v = i as int;
    let a: nat = (if v < 0 { -v } else { v }) as nat;
    let d = decimal_digits(a);
    lemma_decimal_digits_value(a);
    lemma_no_dot(d);
    assert(int_part(d) == d);
    assert(frac_part(d) == Seq::<u8>::empty());
    assert(d + Seq::<u8>::empty() == d);
    if v < 0 {
        let t = seq![45u8] + d;
        assert(t.drop_first() == d);
        assert(number_from_parts(true, a, 0, false) == Number { repr: NumberRepr::Integer(i) });
    } else {
        assert(is_digit(d[0]));
        assert(number_from_parts(false, a, 0, false) == Number { repr: NumberRepr::Integer(i) });
    }
}

proof fn lemma_real_parts_value(a: nat, sn: nat)
    requires
        sn > 0 ==> a % 10 != 0,
    ensures
        ({
            let pd = padded_digits(a, sn);
            let x = pd.subrange(0, pd.len() - sn);
            let f = if sn == 0 { seq![48u8] } else { pd.subrange(pd.len() - sn, pd.len() as int) };
            &&& all_digits(x)
            &&& all_digits(f)
            &&& x.len() + f.len() == pd.len() + if sn == 0 { 1nat } else { 0nat }
            &&& x.len() >= 1
            &&& normalize(digits_value(x + f), f.len()) == (a, sn)
        }),
{
    let pd = padded_digits(a, sn);
    lemma_padded_digits(a, sn);
    let x = pd.subrange(0, pd.len() - sn);
    let f = if sn == 0 { seq![48u8] } else { pd.subrange(pd.len() - sn, pd.len() as int) };
    assert(all_digits(x)) by {
        assert forall|i: int| 0 <= i < x.len() implies is_digit(#[trigger] x[i]) by {
            assert(x[i] == pd[i]);
        }
    }
    assert(all_digits(f)) by {
        assert forall|i: int| 0 <= i < f.len() implies is_digit(#[trigger] f[i]) by {
            if sn > 0 {
                assert(f[i] == pd[pd.len() - sn + i]);
            }
        }
    }
    if sn == 0 {
        assert(x == pd);
        assert((x + f).drop_last() == pd);
        assert(digits_value(x + f) == 10 * a);
        assert(normalize(10 * a, 1) == normalize(a, 0));
    } else {
        assert(x + f == pd);
    }
}

#[verifier::rlimit(40)]
proof fn lemma_real_text_roundtrip(m: i64, sc: u8)
    requires
        sc > 0 ==> (m as int) % 10 != 0,
        padded_digits((if m < 0 { -(m as int) } else { m as int }) as nat, sc as nat).len() + (if sc == 0 { 1nat } else { 0nat })
            <= MAX_NUMBER_DIGITS,
    ensures
        spec_parse_number(real_text(m as int, sc as nat)) == Some(Number { repr: NumberRepr::Real(m, sc) }),
{
    let mi = m as int;
    let a: nat = (if mi < 0 { -mi } else { mi }) as nat;
    let sn = sc as nat;
    assert(sn > 0 ==> a % 10 != 0) by {
        if sn > 0 && mi < 0 {
            assert((-mi) % 10 != 0) by (nonlinear_arith)
                requires mi % 10 != 0, mi < 0;
        }
    }
    lemma_real_parts_value(a, sn);
    let pd = padded_digits(a, sn);
    let x = pd.subrange(0, pd.len() - sn);
    let f = if sn == 0 { seq![48u8] } else { pd.subrange(pd.len() - sn, pd.len() as int) };
    lemma_parse_dotted(mi < 0, x, f);
    let body = x + seq![46u8] + f;
    assert(number_from_parts(mi < 0, digits_value(x + f), f.len(), true) == Number { repr: NumberRepr::Real(m, sc) });
    if mi < 0 {
        let t = seq![45u8] + body;
        assert(real_text(mi, sn) == t);
        assert(t.drop_first() == body);
    } else {
        assert(real_text(mi, sn) == body);
        assert(body[0] == x[0]);
        assert(is_digit(x[0]));
    }
}

/// The text of a number, by its parts: an integer's decimal digits, or a
/// real's mantissa with a dot `scale` places from the right.
pub proof fn lemma_number_text_def(n: Number)
    ensures
        number_text(n) == if n.is_integer() {
            signed_text(n.int_value())
        } else {
            real_text(n.int_value(), n.scale())
        },
{
}

/// The text of the number a numeric token denotes: the integer in decimal
/// when no dot was written and it fits in 32 bits, else the real with its
/// trailing zeros after the dot dropped (keeping one digit after the dot).
pub proof fn lemma_number_text_of_parts(neg: bool, m: nat, frac_len: nat, has_dot: bool)
    requires
        m < 1_000_000_000_000_000_000,
        frac_len < 256,
    ensures
        number_text(number_from_parts(neg, m, frac_len, has_dot)) == ({
            let v: int = if neg { -m } else { m as int };
            if !has_dot && i32::MIN <= v <= i32::MAX {
                signed_text(v)
            } else {
                let (nm, ns) = normalize(m, frac_len);
                real_text(if neg { -nm } else { nm as int }, ns)
            }
        }),
{
    lemma_normalize(m, frac_len);
}

/// Printing a number and parsing its text gives the number back, for every
/// number the library makes whose text has no more digits than a number may
/// have.
pub proof fn lemma_number_text_roundtrip(n: Number)
    requires
        n.wf(),
        n.text_digits() <= MAX_NUMBER_DIGITS,
    ensures
        spec_parse_number(number_text(n)) == Some(n),
{
    match n.repr {
        NumberRepr::Integer(i) => lemma_integer_text_roundtrip(i),
        NumberRepr::Real(m, sc) => lemma_real_text_roundtrip(m, sc),
    }
}

proof fn lemma_normalize(m: nat, s: nat)
    ensures
        normalize(m, s).0 <= m,
        normalize(m, s).1 <= s,
        normalize(m, s).1 > 0 ==> normalize(m, s).0 % 10 != 0,
    decreases s,
{
    if s > 0 && m % 10 == 0 {
        lemma_normalize(m / 10, (s - 1) as nat);
    }
}

/// Every number made from the parts of a numeric token with fewer than 19
/// digits is as the library makes numbers.
pub proof fn lemma_number_from_parts_wf(neg: bool, m: nat, frac_len: nat, has_dot: bool)
    requires
        m < 1_000_000_000_000_000_000,
        frac_len < 256,
    ensures
        number_from_parts(neg, m, frac_len, has_dot).wf(),
{
    let v: int = if neg { -m } else { m as int };
    if !(!has_dot && i32::MIN <= v <= i32::MAX) {
        lemma_normalize(m, frac_len);
        let (nm, ns) = normalize(m, frac_len);
        let nv: int = if neg { -nm } else { nm as int };
        assert((nv as i64) as int == nv);
        if ns > 0 && neg {
            assert((-nm) % 10 != 0) by (nonlinear_arith)
                requires nm % 10 != 0, nm >= 0;
        }
    }
}

/// Every number a numeric token denotes is as the library makes numbers.
pub proof fn lemma_parsed_number_wf(t: Seq<u8>)
    ensures
        spec_parse_number(t) matches Some(n) ==> n.wf(),
{
    let (neg, body) = if t.len() > 0 && (t[0] == 43 || t[0] == 45) {
        (t[0] == 45, t.drop_first())
    } else {
        (false, t)
    };
    let ip = int_part(body);
    let fp = frac_part(body);
    if all_digits(ip) && all_digits(fp) && 1 <= ip.len() + fp.len() <= MAX_NUMBER_DIGITS {
        let d = ip + fp;
        assert(all_digits(d)) by {
            assert forall|i: int| 0 <= i < d.len() implies is_digit(#[trigger] d[i]) by {
                if i < ip.len() {
                    assert(d[i] == ip[i]);
                } else {
                    assert(d[i] == fp[i - ip.len()]);
                }
            }
        }
        lemma_digits_value_bound(d);
        lemma_pow10_mono(d.len(), 18);
        reveal_with_fuel(pow10, 19);
        assert(pow10(18) == 1_000_000_000_000_000_000);
        lemma_number_from_parts_wf(neg, digits_value(d), fp.len(), first_dot(body) < body.len());
    }
}

} // verus!
