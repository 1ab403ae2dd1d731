//! The lexical grammar of content streams: white space, comments, tokens and
//! direct objects.
use vstd::prelude::*;
use crate::chars::{is_white, is_delim, is_regular, is_digit, is_hex_digit, hex_value, white, regular, digit, hex_digit, hex_digit_value};
use crate::number::{Number, spec_parse_number, parse_number};
use crate::object::{Object, ObjectView, Name, PdfString, PdfArray, Dict, view_objects, view_entries, lemma_view_objects, lemma_view_entries};

verus! {

/// How deeply arrays and dictionaries may nest.
pub const MAX_DEPTH: usize = 64;

/// The first position at or after `p` that is neither white space nor part of
/// a comment (a `%` up to the end of its line).
pub open spec fn skip_ws(s: Seq<u8>, p: int) -> int
    decreases s.len() - p, 0int,
{
    if p < 0 || p >= s.len() {
        p
    } else if is_white(s[p]) {
        skip_ws(s, p + 1)
    } else if s[p] == 0x25 {
        skip_comment(s, p + 1)
    } else {
        p
    }
}

/// Inside a comment: skip up to the end of the line, then go on skipping.
pub open spec fn skip_comment(s: Seq<u8>, p: int) -> int
    decreases s.len() - p, 1int,
{
    if p < 0 || p >= s.len() {
        p
    } else if s[p] == 0x0d || s[p] == 0x0a {
        skip_ws(s, p)
    } else {
        skip_comment(s, p + 1)
    }
}

/// The end of the run of regular characters starting at `p`.
pub open spec fn regular_end(s: Seq<u8>, p: int) -> int
    decreases s.len() - p,
{
    if p < 0 || p >= s.len() || !is_regular(s[p]) {
        p
    } else {
        regular_end(s, p + 1)
    }
}

pub proof fn lemma_skip_ws(s: Seq<u8>, p: int)
    requires
        0 <= p,
    ensures
        skip_ws(s, p) >= p,
        p <= s.len() ==> skip_ws(s, p) <= s.len(),
        skip_ws(s, p) < s.len() ==> !is_white(s[skip_ws(s, p)]) && s[skip_ws(s, p)] != 0x25,
    decreases s.len() - p, 0int,
{
    if p < s.len() {
        if is_white(s[p]) {
            lemma_skip_ws(s, p + 1);
        } else if s[p] == 0x25 {
            lemma_skip_comment(s, p + 1);
        }
    }
}

pub proof fn lemma_skip_comment(s: Seq<u8>, p: int)
    requires
        0 <= p,
    ensures
        skip_comment(s, p) >= p,
        p <= s.len() ==> skip_comment(s, p) <= s.len(),
        skip_comment(s, p) < s.len() ==> !is_white(s[skip_comment(s, p)]) && s[skip_comment(
            s,
            p,
        )] != 0x25,
    decreases s.len() - p, 1int,
{
    if p < s.len() {
        if s[p] == 0x0d || s[p] == 0x0a {
            lemma_skip_ws(s, p);
        } else {
            lemma_skip_comment(s, p + 1);
        }
    }
}

pub proof fn lemma_regular_end(s: Seq<u8>, p: int)
    requires
        0 <= p,
    ensures
        regular_end(s, p) >= p,
        p <= s.len() ==> regular_end(s, p) <= s.len(),
        forall|i: int| p <= i < regular_end(s, p) ==> is_regular(#[trigger] s[i]),
        regular_end(s, p) < s.len() ==> !is_regular(s[regular_end(s, p)]),
    decreases s.len() - p,
{
    if 0 <= p < s.len() && is_regular(s[p]) {
        lemma_regular_end(s, p + 1);
    }
}

/// The bytes of a name written as `t` after its slash: `#` and two hex digits
/// stand for one byte.
pub open spec fn decode_name(t: Seq<u8>) -> Seq<u8>
    decreases t.len(),
{
    if t.len() == 0 {
        Seq::empty()
    } else if t[0] == 0x23 && t.len() >= 3 && is_hex_digit(t[1]) && is_hex_digit(t[2]) {
        seq![(hex_value(t[1]) * 16 + hex_value(t[2])) as u8] + decode_name(t.subrange(3, t.len() as int))
    } else {
        seq![t[0]] + decode_name(t.subrange(1, t.len() as int))
    }
}

pub open spec fn is_octal(b: u8) -> bool {
    0x30 <= b <= 0x37
}

/// The body of a literal string from `p` on, after its opening parenthesis:
/// `nest` counts the unbalanced parentheses inside, `acc` the bytes so far.
/// Returns the bytes and the position after the closing parenthesis.
pub open spec fn lit_string(s: Seq<u8>, p: int, nest: nat, acc: Seq<u8>) -> Option<(Seq<u8>, int)>
    decreases s.len() - p,
{
    if p < 0 || p >= s.len() {
        None
    } else {
        let c = s[p];
        if c == 0x5c {
            if p + 1 >= s.len() {
                None
            } else {
                let e = s[p + 1];
                if e == 0x6e {
                    lit_string(s, p + 2, nest, acc.push(0x0a))
                } else if e == 0x72 {
                    lit_string(s, p + 2, nest, acc.push(0x0d))
                } else if e == 0x74 {
                    lit_string(s, p + 2, nest, acc.push(0x09))
                } else if e == 0x62 {
                    lit_string(s, p + 2, nest, acc.push(0x08))
                } else if e == 0x66 {
                    lit_string(s, p + 2, nest, acc.push(0x0c))
                } else if e == 0x0d {
                    if p + 2 < s.len() && s[p + 2] == 0x0a {
                        lit_string(s, p + 3, nest, acc)
                    } else {
                        lit_string(s, p + 2, nest, acc)
                    }
                } else if e == 0x0a {
                    lit_string(s, p + 2, nest, acc)
                } else if is_octal(e) {
                    let d1 = (e - 0x30) as nat;
                    if p + 2 < s.len() && is_octal(s[p + 2]) {
                        let d2 = (s[p + 2] - 0x30) as nat;
                        if p + 3 < s.len() && is_octal(s[p + 3]) {
                            let d3 = (s[p + 3] - 0x30) as nat;
                            lit_string(s, p + 4, nest, acc.push(((d1 * 64 + d2 * 8 + d3) % 256) as u8))
                        } else {
                            lit_string(s, p + 3, nest, acc.push((d1 * 8 + d2) as u8))
                        }
                    } else {
                        lit_string(s, p + 2, nest, acc.push(d1 as u8))
                    }
                } else {
                    lit_string(s, p + 2, nest, acc.push(e))
                }
            }
        } else if c == 0x28 {
            lit_string(s, p + 1, nest + 1, acc.push(c))
        } else if c == 0x29 {
            if nest == 0 {
                Some((acc, p + 1))
            } else {
                lit_string(s, p + 1, (nest - 1) as nat, acc.push(c))
            }
        } else if c == 0x0d {
            if p + 1 < s.len() && s[p + 1] == 0x0a {
                lit_string(s, p + 2, nest, acc.push(0x0a))
            } else {
                lit_string(s, p + 1, nest, acc.push(0x0a))
            }
        } else {
            lit_string(s, p + 1, nest, acc.push(c))
        }
    }
}

/// The body of a hexadecimal string from `p` on, after its `<`: hex digits,
/// white space between them, and a closing `>`; an odd last digit is followed
/// by an implied zero.
pub open spec fn hex_string(s: Seq<u8>, p: int, acc: Seq<u8>, pending: Option<u8>) -> Option<
    (Seq<u8>, int),
>
    decreases s.len() - p,
{
    if p < 0 || p >= s.len() {
        None
    } else {
        let c = s[p];
        if c == 0x3e {
            match pending {
                Some(h) => Some((acc.push((h * 16) as u8), p + 1)),
                None => Some((acc, p + 1)),
            }
        } else if is_white(c) {
            hex_string(s, p + 1, acc, pending)
        } else if is_hex_digit(c) {
            match pending {
                Some(h) => hex_string(s, p + 1, acc.push((h * 16 + hex_value(c)) as u8), None),
                None => hex_string(s, p + 1, acc, Some(hex_value(c))),
            }
        } else {
            None
        }
    }
}

/// A token of regular characters that is an object: `true`, `false`, `null`
/// or a number.
pub open spec fn keyword_or_number(t: Seq<u8>) -> Option<ObjectView> {
    if t == seq![0x74u8, 0x72, 0x75, 0x65] {
        Some(ObjectView::Boolean(true))
    } else if t == seq![0x66u8, 0x61, 0x6c, 0x73, 0x65] {
        Some(ObjectView::Boolean(false))
    } else if t == seq![0x6eu8, 0x75, 0x6c, 0x6c] {
        Some(ObjectView::Null)
    } else {
        match spec_parse_number(t) {
            Some(n) => Some(ObjectView::Number(n)),
            None => None,
        }
    }
}

/// The object that starts at `p` (which is not white space), at nesting
/// depth `depth`, and the position after it.
pub open spec fn parse_object(s: Seq<u8>, p: int, depth: nat) -> Option<(ObjectView, int)>
    decreases s.len() - p, 0int,
{
    if p < 0 || p >= s.len() {
        None
    } else {
        let c = s[p];
        if c == 0x2f {
            proof {
                lemma_regular_end(s, p + 1);
            }
            let e = regular_end(s, p + 1);
            Some((ObjectView::Name(decode_name(s.subrange(p + 1, e))), e))
        } else if c == 0x28 {
            match lit_string(s, p + 1, 0, Seq::empty()) {
                Some((t, e)) => Some((ObjectView::String(t), e)),
                None => None,
            }
        } else if c == 0x3c {
            if p + 1 < s.len() && s[p + 1] == 0x3c {
                if depth < MAX_DEPTH {
                    match dict_entries(s, p + 2, depth + 1, Seq::empty()) {
                        Some((es, e)) => Some((ObjectView::Dict(es), e)),
                        None => None,
                    }
                } else {
                    None
                }
            } else {
                match hex_string(s, p + 1, Seq::empty(), None) {
                    Some((t, e)) => Some((ObjectView::String(t), e)),
                    None => None,
                }
            }
        } else if c == 0x5b {
            if depth < MAX_DEPTH {
                match array_items(s, p + 1, depth + 1, Seq::empty()) {
                    Some((items, e)) => Some((ObjectView::Array(items), e)),
                    None => None,
                }
            } else {
                None
            }
        } else if is_regular(c) {
            proof {
                lemma_regular_end(s, p);
            }
            let e = regular_end(s, p);
            match keyword_or_number(s.subrange(p, e)) {
                Some(o) => Some((o, e)),
                None => None,
            }
        } else {
            None
        }
    }
}

/// The items of an array from `p` on, up to and including its `]`.
pub open spec fn array_items(s: Seq<u8>, p: int, depth: nat, acc: Seq<ObjectView>) -> Option<
    (Seq<ObjectView>, int),
>
    decreases s.len() - p, 1int,
{
    if p < 0 || p > s.len() {
        None
    } else {
        proof {
            lemma_skip_ws(s, p);
        }
        let q = skip_ws(s, p);
        if q >= s.len() {
            None
        } else if s[q] == 0x5d {
            Some((acc, q + 1))
        } else {
            match parse_object(s, q, depth) {
                Some((o, e)) => if q < e <= s.len() {
                    array_items(s, e, depth, acc.push(o))
                } else {
                    None
                },
                None => None,
            }
        }
    }
}

/// The entries of a dictionary from `p` on, up to and including its `>>`.
pub open spec fn dict_entries(
    s: Seq<u8>,
    p: int,
    depth: nat,
    acc: Seq<(Seq<u8>, ObjectView)>,
) -> Option<(Seq<(Seq<u8>, ObjectView)>, int)>
    decreases s.len() - p, 1int,
{
    if p < 0 || p > s.len() {
        None
    } else {
        proof {
            lemma_skip_ws(s, p);
        }
        let q = skip_ws(s, p);
        if q >= s.len() {
            None
        } else if s[q] == 0x3e && q + 1 < s.len() && s[q + 1] == 0x3e {
            Some((acc, q + 2))
        } else if s[q] == 0x2f {
            proof {
                lemma_regular_end(s, q + 1);
            }
            let ke = regular_end(s, q + 1);
            let key = decode_name(s.subrange(q + 1, ke));
            proof {
                lemma_skip_ws(s, ke);
            }
            let v = skip_ws(s, ke);
            match parse_object(s, v, depth) {
                Some((o, e)) => if q < e <= s.len() {
                    dict_entries(s, e, depth, acc.push((key, o)))
                } else {
                    None
                },
                None => None,
            }
        } else {
            None
        }
    }
}

/// Skip white space and comments from `p` on.
pub fn skip_ws_exec(s: &[u8], p: usize) -> (r: usize)
    requires
        p <= s.len(),
    ensures
        r == skip_ws(s@, p as int),
        p <= r <= s.len(),
{
    let mut i = p;
    let mut in_comment = false;
    while i < s.len()
        invariant
            p <= i <= s.len(),
            skip_ws(s@, p as int) == if in_comment {
                skip_comment(s@, i as int)
            } else {
                skip_ws(s@, i as int)
            },
        decreases s.len() - i, if in_comment { 1int } else { 0int },
    {
        let c = s[i];
        if in_comment {
            if c == 0x0d || c == 0x0a {
                in_comment = false;
            } else {
                i = i + 1;
            }
        } else if white(c) {
            i = i + 1;
        } else if c == 0x25 {
            in_comment = true;
            i = i + 1;
        } else {
            return i;
        }
    }
    i
}

/// The end of the run of regular characters from `p` on.
pub fn regular_end_exec(s: &[u8], p: usize) -> (r: usize)
    requires
        p <= s.len(),
    ensures
        r == regular_end(s@, p as int),
        p <= r <= s.len(),
{
    let mut i = p;
    while i < s.len() && regular(s[i])
        invariant
            p <= i <= s.len(),
            regular_end(s@, p as int) == regular_end(s@, i as int),
        decreases s.len() - i,
    {
        i = i + 1;
    }
    i
}

/// Resolve the `#xx` escapes of the name written as `s[a..b]`.
pub fn decode_name_exec(s: &[u8], a: usize, b: usize) -> (r: Vec<u8>)
    requires
        a <= b <= s.len(),
    ensures
        r@ == decode_name(s@.subrange(a as int, b as int)),
{
    let mut out: Vec<u8> = Vec::new();
    let mut i = a;
    while i < b
        invariant
            a <= i <= b <= s.len(),
            decode_name(s@.subrange(a as int, b as int)) == out@ + decode_name(
                s@.subrange(i as int, b as int),
            ),
        decreases b - i,
    {
        let ghost t = s@.subrange(i as int, b as int);
        if s[i] == 0x23 && b - i > 2 && hex_digit(s[i + 1]) && hex_digit(s[i + 2]) {
            let v = hex_digit_value(s[i + 1]) * 16 + hex_digit_value(s[i + 2]);
            proof {
                assert(t.subrange(3, t.len() as int) == s@.subrange(i + 3, b as int));
                assert(decode_name(t) == seq![v] + decode_name(s@.subrange(i + 3, b as int)));
            }
            out.push(v);
            i = i + 3;
        } else {
            proof {
                assert(t.subrange(1, t.len() as int) == s@.subrange(i + 1, b as int));
                if s@[i as int] == 0x23 && t.len() >= 3 {
                    assert(t[1] == s@[i + 1]);
                    assert(t[2] == s@[i + 2]);
                }
                assert(decode_name(t) == seq![s@[i as int]] + decode_name(s@.subrange(i + 1, b as int)));
            }
            out.push(s[i]);
            i = i + 1;
        }
    }
    assert(decode_name(s@.subrange(b as int, b as int)) == Seq::<u8>::empty());
    out
}

pub open spec fn bytes_result_matches(r: Option<(Vec<u8>, usize)>, sp: Option<(Seq<u8>, int)>) -> bool {
    match sp {
        Some((t, e)) => r is Some && r.unwrap().0@ == t && r.unwrap().1 as int == e,
        None => r is None,
    }
}

fn octal(b: u8) -> (r: bool)
    ensures
        r == is_octal(b),
{
    0x30 <= b && b <= 0x37
}

/// Decode the literal string whose body starts at `p`.
#[verifier::rlimit(40)]
pub fn lit_string_exec(s: &[u8], p: usize) -> (r: Option<(Vec<u8>, usize)>)
    requires
        p <= s.len(),
    ensures
        bytes_result_matches(r, lit_string(s@, p as int, 0, Seq::empty())),
        r matches Some((_, e)) ==> e <= s.len(),
{
    let mut out: Vec<u8> = Vec::new();
    let mut i = p;
    let mut nest: usize = 0;
    while i < s.len()
        invariant
            p <= i <= s.len(),
            nest <= i,
            lit_string(s@, p as int, 0, Seq::empty()) == lit_string(s@, i as int, nest as nat, out@),
        decreases s.len() - i,
    {
        let c = s[i];
        if c == 0x5c {
            if i + 1 >= s.len() {
                return None;
            }
            let e = s[i + 1];
            if e == 0x6e {
                out.push(0x0a);
                i = i + 2;
            } else if e == 0x72 {
                out.push(0x0d);
                i = i + 2;
            } else if e == 0x74 {
                out.push(0x09);
                i = i + 2;
            } else if e == 0x62 {
                out.push(0x08);
                i = i + 2;
            } else if e == 0x66 {
                out.push(0x0c);
                i = i + 2;
            } else if e == 0x0d {
                if i + 2 < s.len() && s[i + 2] == 0x0a {
                    i = i + 3;
                } else {
                    i = i + 2;
                }
            } else if e == 0x0a {
                i = i + 2;
            } else if octal(e) {
                let d1 = (e - 0x30) as u32;
                if i + 2 < s.len() && octal(s[i + 2]) {
                    let d2 = (s[i + 2] - 0x30) as u32;
                    if i + 3 < s.len() && octal(s[i + 3]) {
                        let d3 = (s[i + 3] - 0x30) as u32;
                        out.push(((d1 * 64 + d2 * 8 + d3) % 256) as u8);
                        i = i + 4;
                    } else {
                        out.push((d1 * 8 + d2) as u8);
                        i = i + 3;
                    }
                } else {
                    out.push(d1 as u8);
                    i = i + 2;
                }
            } else {
                out.push(e);
                i = i + 2;
            }
        } else if c == 0x28 {
            out.push(c);
            nest = nest + 1;
            i = i + 1;
        } else if c == 0x29 {
            if nest == 0 {
                return Some((out, i + 1));
            }
            out.push(c);
            nest = nest - 1;
            i = i + 1;
        } else if c == 0x0d {
            out.push(0x0a);
            if i + 1 < s.len() && s[i + 1] == 0x0a {
                i = i + 2;
            } else {
                i = i + 1;
            }
        } else {
            out.push(c);
            i = i + 1;
        }
    }
    None
}

/// Decode the hexadecimal string whose body starts at `p`.
pub fn hex_string_exec(s: &[u8], p: usize) -> (r: Option<(Vec<u8>, usize)>)
    requires
        p <= s.len(),
    ensures
        bytes_result_matches(r, hex_string(s@, p as int, Seq::empty(), None)),
        r matches Some((_, e)) ==> e <= s.len(),
{
    let mut out: Vec<u8> = Vec::new();
    let mut i = p;
    let mut pending: Option<u8> = None;
    while i < s.len()
        invariant
            p <= i <= s.len(),
            pending matches Some(h) ==> h < 16,
            hex_string(s@, p as int, Seq::empty(), None) == hex_string(s@, i as int, out@, pending),
        decreases s.len() - i,
    {
        let c = s[i];
        if c == 0x3e {
            match pending {
                Some(h) => {
                    out.push(h * 16);
                },
                None => {},
            }
            return Some((out, i + 1));
        } else if white(c) {
            i = i + 1;
        } else if hex_digit(c) {
            let v = hex_digit_value(c);
            match pending {
                Some(h) => {
                    out.push(h * 16 + v);
                    pending = None;
                },
                None => {
                    pending = Some(v);
                },
            }
            i = i + 1;
        } else {
            return None;
        }
    }
    None
}

fn token_is(s: &[u8], a: usize, b: usize, word: &[u8]) -> (r: bool)
    requires
        a <= b <= s.len(),
    ensures
        r == (s@.subrange(a as int, b as int) == word@),
{
    if b - a != word.len() {
        return false;
    }
    let mut i: usize = 0;
    while i < word.len()
        invariant
            b - a == word.len(),
            a <= b <= s.len(),
            i <= word.len(),
            forall|j: int| 0 <= j < i ==> s@[a + j] == word@[j],
        decreases word.len() - i,
    {
        if s[a + i] != word[i] {
            assert(s@.subrange(a as int, b as int)[i as int] != word@[i as int]);
            return false;
        }
        i = i + 1;
    }
    assert(s@.subrange(a as int, b as int) == word@);
    true
}

/// The keyword or number that the token `s[a..b]` denotes.
pub fn keyword_or_number_exec(s: &[u8], a: usize, b: usize) -> (r: Option<Object>)
    requires
        a <= b <= s.len(),
    ensures
        match keyword_or_number(s@.subrange(a as int, b as int)) {
            Some(o) => r is Some && r->0.view() == o,
            None => r is None,
        },
{
    let t_true: [u8; 4] = [0x74, 0x72, 0x75, 0x65];
    let t_false: [u8; 5] = [0x66, 0x61, 0x6c, 0x73, 0x65];
    let t_null: [u8; 4] = [0x6e, 0x75, 0x6c, 0x6c];
    assert(t_true@ == seq![0x74u8, 0x72, 0x75, 0x65]);
    assert(t_false@ == seq![0x66u8, 0x61, 0x6c, 0x73, 0x65]);
    assert(t_null@ == seq![0x6eu8, 0x75, 0x6c, 0x6c]);
    if token_is(s, a, b, &t_true) {
        Some(Object::Boolean(true))
    } else if token_is(s, a, b, &t_false) {
        Some(Object::Boolean(false))
    } else if token_is(s, a, b, &t_null) {
        Some(Object::Null)
    } else {
        match parse_number(s, a, b) {
            Some(n) => Some(Object::Number(n)),
            None => None,
        }
    }
}

pub open spec fn object_result_matches(r: Option<(Object, usize)>, sp: Option<(ObjectView, int)>) -> bool {
    match sp {
        Some((o, e)) => r is Some && r.unwrap().0.view() == o && r.unwrap().1 as int == e,
        None => r is None,
    }
}

/// Parse the object that starts at `p`, at nesting depth `depth`.
pub fn parse_object_exec(s: &[u8], p: usize, depth: usize) -> (r: Option<(Object, usize)>)
    requires
        p <= s.len(),
        depth <= MAX_DEPTH,
    ensures
        object_result_matches(r, parse_object(s@, p as int, depth as nat)),
        r matches Some((_, e)) ==> e <= s.len(),
    decreases MAX_DEPTH - depth, 0int,
{
    if p >= s.len() {
        return None;
    }
    let c = s[p];
    if c == 0x2f {
        let e = regular_end_exec(s, p + 1);
        let bytes = decode_name_exec(s, p + 1, e);
        Some((Object::Name(Name(bytes)), e))
    } else if c == 0x28 {
        match lit_string_exec(s, p + 1) {
            Some((t, e)) => Some((Object::String(PdfString(t)), e)),
            None => None,
        }
    } else if c == 0x3c {
        if p + 1 < s.len() && s[p + 1] == 0x3c {
            if depth < MAX_DEPTH {
                match parse_dict_exec(s, p + 2, depth + 1) {
                    Some((d, e)) => Some((Object::Dict(d), e)),
                    None => None,
                }
            } else {
                None
            }
        } else {
            match hex_string_exec(s, p + 1) {
                Some((t, e)) => Some((Object::String(PdfString(t)), e)),
                None => None,
            }
        }
    } else if c == 0x5b {
        if depth < MAX_DEPTH {
            match parse_array_exec(s, p + 1, depth + 1) {
                Some((a, e)) => Some((Object::Array(a), e)),
                None => None,
            }
        } else {
            None
        }
    } else if regular(c) {
        let e = regular_end_exec(s, p);
        match keyword_or_number_exec(s, p, e) {
            Some(o) => Some((o, e)),
            None => None,
        }
    } else {
        None
    }
}

/// Parse the items of an array from `p` on, up to and including its `]`.
pub fn parse_array_exec(s: &[u8], p: usize, depth: usize) -> (r: Option<(PdfArray, usize)>)
    requires
        p <= s.len(),
        depth <= MAX_DEPTH,
    ensures
        match array_items(s@, p as int, depth as nat, Seq::empty()) {
            Some((items, e)) => r is Some && r.unwrap().0.view() == items && r.unwrap().1 as int == e,
            None => r is None,
        },
        r matches Some((_, e)) ==> e <= s.len(),
    decreases MAX_DEPTH - depth, 1int,
{
    let mut acc: Vec<Object> = Vec::new();
    let mut pos = p;
    while pos <= s.len()
        invariant
            pos <= s.len(),
            depth <= MAX_DEPTH,
            array_items(s@, p as int, depth as nat, Seq::empty()) == array_items(
                s@,
                pos as int,
                depth as nat,
                view_objects(acc@),
            ),
        decreases s.len() - pos,
    {
        let q = skip_ws_exec(s, pos);
        if q >= s.len() {
            return None;
        }
        if s[q] == 0x5d {
            return Some((PdfArray(acc), q + 1));
        }
        match parse_object_exec(s, q, depth) {
            Some((o, e)) => {
                if q < e && e <= s.len() {
                    let ghost prev = acc@;
                    acc.push(o);
                    proof {
                        assert(acc@.drop_last() == prev);
                    }
                    pos = e;
                } else {
                    return None;
                }
            },
            None => {
                return None;
            },
        }
    }
    None
}

/// Parse the entries of a dictionary from `p` on, up to and including its `>>`.
pub fn parse_dict_exec(s: &[u8], p: usize, depth: usize) -> (r: Option<(Dict, usize)>)
    requires
        p <= s.len(),
        depth <= MAX_DEPTH,
    ensures
        match dict_entries(s@, p as int, depth as nat, Seq::empty()) {
            Some((es, e)) => r is Some && r.unwrap().0.view() == es && r.unwrap().1 as int == e,
            None => r is None,
        },
        r matches Some((_, e)) ==> e <= s.len(),
    decreases MAX_DEPTH - depth, 1int,
{
    let mut acc: Vec<(Name, Object)> = Vec::new();
    let mut pos = p;
    while pos <= s.len()
        invariant
            pos <= s.len(),
            depth <= MAX_DEPTH,
            dict_entries(s@, p as int, depth as nat, Seq::empty()) == dict_entries(
                s@,
                pos as int,
                depth as nat,
                view_entries(acc@),
            ),
        decreases s.len() - pos,
    {
        let q = skip_ws_exec(s, pos);
        if q >= s.len() {
            return None;
        }
        if s[q] == 0x3e && q + 1 < s.len() && s[q + 1] == 0x3e {
            return Some((Dict(acc), q + 2));
        }
        if s[q] != 0x2f {
            return None;
        }
        let ke = regular_end_exec(s, q + 1);
        let key = decode_name_exec(s, q + 1, ke);
        let v = skip_ws_exec(s, ke);
        match parse_object_exec(s, v, depth) {
            Some((o, e)) => {
                if q < e && e <= s.len() {
                    let ghost prev = acc@;
                    acc.push((Name(key), o));
                    proof {
                        assert(acc@.drop_last() == prev);
                    }
                    pos = e;
                } else {
                    return None;
                }
            },
            None => {
                return None;
            },
        }
    }
    None
}

} // verus!
