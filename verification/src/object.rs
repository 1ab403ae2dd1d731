//! PDF objects as they occur in content streams, with their text forms.
use vstd::prelude::*;
use crate::number::{Number, number_text, push_number, lemma_number_text_ascii};
use crate::decimal::{decimal_digits, push_decimal, is_ascii_seq, lemma_decimal_digits_ascii};
use crate::chars::{is_regular, regular};

verus! {

/// A name object; holds its bytes with `#xx` escapes already resolved.
#[derive(Clone, Debug, PartialEq, Eq)]
pub struct Name(pub Vec<u8>);

/// A string object; holds its decoded bytes.
#[derive(Clone, Debug, PartialEq, Eq)]
pub struct PdfString(pub Vec<u8>);

/// An array object.
#[derive(Debug, PartialEq)]
pub struct PdfArray(pub Vec<Object>);

/// A dictionary object: its entries in the order they were written.
#[derive(Debug, PartialEq)]
pub struct Dict(pub Vec<(Name, Object)>);

/// A stream object: a dictionary and the raw bytes that follow it.
#[derive(Debug, PartialEq)]
pub struct Stream {
    pub dict: Dict,
    pub data: Vec<u8>,
}

/// A direct PDF object.
#[derive(Debug, PartialEq)]
pub enum Object {
    Null,
    Boolean(bool),
    Number(Number),
    Name(Name),
    String(PdfString),
    Array(PdfArray),
    Dict(Dict),
}

/// The mathematical model of an object.
pub enum ObjectView {
    Null,
    Boolean(bool),
    Number(Number),
    Name(Seq<u8>),
    String(Seq<u8>),
    Array(Seq<ObjectView>),
    Dict(Seq<(Seq<u8>, ObjectView)>),
}

impl Name {
    pub open spec fn view(&self) -> Seq<u8> {
        self.0@
    }

    /// A name with the given (already unescaped) bytes.
    pub fn new_unescaped(bytes: &[u8]) -> (r: Name)
        ensures
            r.view() == bytes@,
    {
        let mut v: Vec<u8> = Vec::new();
        crate::decimal::push_all(&mut v, bytes);
        Name(v)
    }

    /// The bytes of the name.
    pub fn as_ref(&self) -> (r: &[u8])
        ensures
            r@ == self.view(),
    {
        self.0.as_slice()
    }
}

impl PdfString {
    pub open spec fn view(&self) -> Seq<u8> {
        self.0@
    }

    /// The bytes of the string.
    pub fn as_bytes(&self) -> (r: &[u8])
        ensures
            r@ == self.view(),
    {
        self.0.as_slice()
    }
}

impl Object {
    pub open spec fn view(&self) -> ObjectView
        decreases self,
    {
        match self {
            Object::Null => ObjectView::Null,
            Object::Boolean(b) => ObjectView::Boolean(*b),
            Object::Number(n) => ObjectView::Number(*n),
            Object::Name(n) => ObjectView::Name(n.0@),
            Object::String(s) => ObjectView::String(s.0@),
            Object::Array(a) => ObjectView::Array(view_objects(a.0@)),
            Object::Dict(d) => ObjectView::Dict(view_entries(d.0@)),
        }
    }
}

pub open spec fn view_objects(s: Seq<Object>) -> Seq<ObjectView>
    decreases s,
{
    if s.len() == 0 {
        Seq::empty()
    } else {
        view_objects(s.drop_last()).push(s.last().view())
    }
}

pub open spec fn view_entries(s: Seq<(Name, Object)>) -> Seq<(Seq<u8>, ObjectView)>
    decreases s,
{
    if s.len() == 0 {
        Seq::empty()
    } else {
        view_entries(s.drop_last()).push((s.last().0.0@, s.last().1.view()))
    }
}

impl PdfArray {
    pub open spec fn view(&self) -> Seq<ObjectView> {
        view_objects(self.0@)
    }
}

impl Dict {
    pub open spec fn view(&self) -> Seq<(Seq<u8>, ObjectView)> {
        view_entries(self.0@)
    }
}

pub proof fn lemma_view_objects(s: Seq<Object>)
    ensures
        view_objects(s).len() == s.len(),
        forall|i: int| 0 <= i < s.len() ==> #[trigger] view_objects(s)[i] == s[i].view(),
    decreases s.len(),
{
    if s.len() > 0 {
        lemma_view_objects(s.drop_last());
    }
}

pub proof fn lemma_view_entries(s: Seq<(Name, Object)>)
    ensures
        view_entries(s).len() == s.len(),
        forall|i: int|
            0 <= i < s.len() ==> #[trigger] view_entries(s)[i] == (s[i].0.0@, s[i].1.view()),
    decreases s.len(),
{
    if s.len() > 0 {
        lemma_view_entries(s.drop_last());
    }
}

/// Upper-case hexadecimal digit of a value below 16.
pub open spec fn hex_upper(v: u8) -> u8 {
    if v < 10 {
        (v + 48) as u8
    } else {
        (v - 10 + 65) as u8
    }
}

/// Bytes that a name or operator shows as they are.
pub open spec fn is_plain_byte(b: u8) -> bool {
    0x21 <= b <= 0x7e && is_regular(b) && b != 0x23
}

pub open spec fn byte_escape(b: u8) -> Seq<u8> {
    if is_plain_byte(b) {
        seq![b]
    } else {
        seq![0x23u8, hex_upper(b / 16), hex_upper(b % 16)]
    }
}

/// Bytes with every byte that is not plain written as `#` and two hex digits.
pub open spec fn escaped_bytes(t: Seq<u8>) -> Seq<u8>
    decreases t.len(),
{
    if t.len() == 0 {
        Seq::empty()
    } else {
        escaped_bytes(t.drop_last()) + byte_escape(t.last())
    }
}

/// Text of a name: a slash and its escaped bytes.
pub open spec fn name_text(n: Seq<u8>) -> Seq<u8> {
    seq![0x2fu8] + escaped_bytes(n)
}

pub open spec fn is_printable(t: Seq<u8>) -> bool {
    forall|i: int| 0 <= i < t.len() ==> 0x20 <= #[trigger] t[i] <= 0x7e
}

/// Printable text with `"` and `\` preceded by a backslash.
pub open spec fn quote_escaped(t: Seq<u8>) -> Seq<u8>
    decreases t.len(),
{
    if t.len() == 0 {
        Seq::empty()
    } else {
        let b = t.last();
        quote_escaped(t.drop_last()) + if b == 0x22 || b == 0x5c {
            seq![0x5cu8, b]
        } else {
            seq![b]
        }
    }
}

/// The bytes as decimal numbers separated by `, `.
pub open spec fn byte_list(t: Seq<u8>) -> Seq<u8>
    decreases t.len(),
{
    if t.len() == 0 {
        Seq::empty()
    } else if t.len() == 1 {
        decimal_digits(t[0] as nat)
    } else {
        byte_list(t.drop_last()) + seq![0x2cu8, 0x20u8] + decimal_digits(t.last() as nat)
    }
}

/// Text of a string: quoted when all its bytes are printable, else its bytes
/// as a bracketed list of numbers.
pub open spec fn string_text(t: Seq<u8>) -> Seq<u8> {
    if is_printable(t) {
        seq![0x22u8] + quote_escaped(t) + seq![0x22u8]
    } else {
        seq![0x5bu8] + byte_list(t) + seq![0x5du8]
    }
}

/// Text of an object, in the syntax of PDF except for strings.
pub open spec fn object_text(o: ObjectView) -> Seq<u8>
    decreases o,
{
    match o {
        ObjectView::Null => seq![0x6eu8, 0x75, 0x6c, 0x6c],
        ObjectView::Boolean(b) => if b {
            seq![0x74u8, 0x72, 0x75, 0x65]
        } else {
            seq![0x66u8, 0x61, 0x6c, 0x73, 0x65]
        },
        ObjectView::Number(n) => number_text(n),
        ObjectView::Name(n) => name_text(n),
        ObjectView::String(t) => string_text(t),
        ObjectView::Array(items) => seq![0x5bu8] + objects_text(items) + seq![0x5du8],
        ObjectView::Dict(entries) => seq![0x3cu8, 0x3c] + entries_text(entries) + seq![
            0x3eu8,
            0x3e,
        ],
    }
}

/// The texts of the objects separated by single spaces.
pub open spec fn objects_text(items: Seq<ObjectView>) -> Seq<u8>
    decreases items,
{
    if items.len() == 0 {
        Seq::empty()
    } else if items.len() == 1 {
        object_text(items[0])
    } else {
        objects_text(items.drop_last()) + seq![0x20u8] + object_text(items.last())
    }
}

/// The entries as `key value`, separated by single spaces.
pub open spec fn entries_text(entries: Seq<(Seq<u8>, ObjectView)>) -> Seq<u8>
    decreases entries,
{
    if entries.len() == 0 {
        Seq::empty()
    } else if entries.len() == 1 {
        name_text(entries[0].0) + seq![0x20u8] + object_text(entries[0].1)
    } else {
        entries_text(entries.drop_last()) + seq![0x20u8] + name_text(entries.last().0) + seq![
            0x20u8,
        ] + object_text(entries.last().1)
    }
}

pub proof fn lemma_objects_text_1(a: ObjectView)
    ensures
        objects_text(seq![a]) == object_text(a),
{
}

pub proof fn lemma_objects_text_2(a: ObjectView, b: ObjectView)
    ensures
        objects_text(seq![a, b]) == object_text(a) + seq![0x20u8] + object_text(b),
{
    assert(seq![a, b].drop_last() == seq![a]);
    assert(objects_text(seq![a]) == object_text(a));
    assert(seq![a, b].last() == b);
}

pub proof fn lemma_objects_text_3(a: ObjectView, b: ObjectView, c: ObjectView)
    ensures
        objects_text(seq![a, b, c]) == object_text(a) + seq![0x20u8] + object_text(b) + seq![0x20u8]
            + object_text(c),
{
    assert(seq![a, b, c].drop_last() == seq![a, b]);
    lemma_objects_text_2(a, b);
    assert(seq![a, b, c].last() == c);
}

proof fn lemma_ascii_concat(a: Seq<u8>, b: Seq<u8>)
    requires
        is_ascii_seq(a),
        is_ascii_seq(b),
    ensures
        is_ascii_seq(a + b),
{
    assert forall|i: int| 0 <= i < (a + b).len() implies (a + b)[i] < 128 by {
        if i < a.len() {
            assert((a + b)[i] == a[i]);
        } else {
            assert((a + b)[i] == b[i - a.len()]);
        }
    }
}

pub proof fn lemma_escaped_ascii(t: Seq<u8>)
    ensures
        is_ascii_seq(escaped_bytes(t)),
    decreases t.len(),
{
    if t.len() > 0 {
        lemma_escaped_ascii(t.drop_last());
        lemma_ascii_concat(escaped_bytes(t.drop_last()), byte_escape(t.last()));
    }
}

pub proof fn lemma_name_text_ascii(n: Seq<u8>)
    ensures
        is_ascii_seq(name_text(n)),
{
    lemma_escaped_ascii(n);
    lemma_ascii_concat(seq![0x2fu8], escaped_bytes(n));
}

proof fn lemma_quote_escaped_ascii(t: Seq<u8>)
    requires
        is_printable(t),
    ensures
        is_ascii_seq(quote_escaped(t)),
    decreases t.len(),
{
    if t.len() > 0 {
        let p = t.drop_last();
        assert(is_printable(p)) by {
            assert forall|i: int| 0 <= i < p.len() implies 0x20 <= #[trigger] p[i] <= 0x7e by {
                assert(p[i] == t[i]);
            }
        }
        lemma_quote_escaped_ascii(p);
        let b = t.last();
        assert(0x20 <= t[t.len() - 1] <= 0x7e);
        let tail = if b == 0x22 || b == 0x5c { seq![0x5cu8, b] } else { seq![b] };
        lemma_ascii_concat(quote_escaped(p), tail);
    }
}

proof fn lemma_byte_list_ascii(t: Seq<u8>)
    ensures
        is_ascii_seq(byte_list(t)),
    decreases t.len(),
{
    if t.len() == 1 {
        lemma_decimal_digits_ascii(t[0] as nat);
    } else if t.len() > 1 {
        lemma_byte_list_ascii(t.drop_last());
        lemma_decimal_digits_ascii(t.last() as nat);
        lemma_ascii_concat(byte_list(t.drop_last()), seq![0x2cu8, 0x20u8]);
        lemma_ascii_concat(byte_list(t.drop_last()) + seq![0x2cu8, 0x20u8], decimal_digits(t.last() as nat));
    }
}

pub proof fn lemma_string_text_ascii(t: Seq<u8>)
    ensures
        is_ascii_seq(string_text(t)),
{
    if is_printable(t) {
        lemma_quote_escaped_ascii(t);
        lemma_ascii_concat(seq![0x22u8], quote_escaped(t));
        lemma_ascii_concat(seq![0x22u8] + quote_escaped(t), seq![0x22u8]);
    } else {
        lemma_byte_list_ascii(t);
        lemma_ascii_concat(seq![0x5bu8], byte_list(t));
        lemma_ascii_concat(seq![0x5bu8] + byte_list(t), seq![0x5du8]);
    }
}

pub proof fn lemma_object_text_ascii(o: ObjectView)
    ensures
        is_ascii_seq(object_text(o)),
    decreases o,
{
    match o {
        ObjectView::Number(n) => {
            lemma_number_text_ascii(n);
        },
        ObjectView::Name(n) => {
            lemma_name_text_ascii(n);
        },
        ObjectView::String(t) => {
            lemma_string_text_ascii(t);
        },
        ObjectView::Array(items) => {
            lemma_objects_text_ascii(items);
            lemma_ascii_concat(seq![0x5bu8], objects_text(items));
            lemma_ascii_concat(seq![0x5bu8] + objects_text(items), seq![0x5du8]);
        },
        ObjectView::Dict(entries) => {
            lemma_entries_text_ascii(entries);
            lemma_ascii_concat(seq![0x3cu8, 0x3c], entries_text(entries));
            lemma_ascii_concat(seq![0x3cu8, 0x3c] + entries_text(entries), seq![0x3eu8, 0x3e]);
        },
        _ => {},
    }
}

pub proof fn lemma_objects_text_ascii(items: Seq<ObjectView>)
    ensures
        is_ascii_seq(objects_text(items)),
    decreases items,
{
    if items.len() == 1 {
        lemma_object_text_ascii(items[0]);
    } else if items.len() > 1 {
        lemma_objects_text_ascii(items.drop_last());
        lemma_object_text_ascii(items.last());
        lemma_ascii_concat(objects_text(items.drop_last()), seq![0x20u8]);
        lemma_ascii_concat(objects_text(items.drop_last()) + seq![0x20u8], object_text(items.last()));
    }
}

pub proof fn lemma_entries_text_ascii(entries: Seq<(Seq<u8>, ObjectView)>)
    ensures
        is_ascii_seq(entries_text(entries)),
    decreases entries,
{
    if entries.len() == 1 {
        assert(decreases_to!(entries => entries[0]));
        lemma_object_text_ascii(entries[0].1);
        lemma_name_text_ascii(entries[0].0);
        lemma_ascii_concat(name_text(entries[0].0), seq![0x20u8]);
        lemma_ascii_concat(name_text(entries[0].0) + seq![0x20u8], object_text(entries[0].1));
    } else if entries.len() > 1 {
        let l = entries.last();
        assert(decreases_to!(entries => entries[entries.len() - 1]));
        lemma_entries_text_ascii(entries.drop_last());
        lemma_object_text_ascii(l.1);
        lemma_name_text_ascii(l.0);
        let a = entries_text(entries.drop_last());
        lemma_ascii_concat(a, seq![0x20u8]);
        lemma_ascii_concat(a + seq![0x20u8], name_text(l.0));
        lemma_ascii_concat(a + seq![0x20u8] + name_text(l.0), seq![0x20u8]);
        lemma_ascii_concat(a + seq![0x20u8] + name_text(l.0) + seq![0x20u8], object_text(l.1));
    }
}

fn hex_upper_exec(v: u8) -> (r: u8)
    requires
        v < 16,
    ensures
        r == hex_upper(v),
{
    if v < 10 {
        v + 48
    } else {
        v - 10 + 65
    }
}

/// Append `escaped_bytes(t)` to `out`.
pub fn push_escaped(out: &mut Vec<u8>, t: &[u8])
    ensures
        final(out)@ == old(out)@ + escaped_bytes(t@),
{
    let mut i: usize = 0;
    while i < t.len()
        invariant
            i <= t.len(),
            out@ == old(out)@ + escaped_bytes(t@.subrange(0, i as int)),
        decreases t.len() - i,
    {
        let b = t[i];
        if 0x21 <= b && b <= 0x7e && regular(b) && b != 0x23 {
            out.push(b);
        } else {
            out.push(0x23);
            out.push(hex_upper_exec(b / 16));
            out.push(hex_upper_exec(b % 16));
        }
        proof {
            let p = t@.subrange(0, i + 1);
            assert(p.drop_last() == t@.subrange(0, i as int));
            assert(escaped_bytes(p) == escaped_bytes(t@.subrange(0, i as int)) + byte_escape(b));
        }
        i = i + 1;
    }
    assert(t@.subrange(0, t.len() as int) == t@);
}

/// Append the text of a name to `out`.
pub fn push_name_text(out: &mut Vec<u8>, n: &Name)
    ensures
        final(out)@ == old(out)@ + name_text(n.view()),
{
    out.push(0x2f);
    push_escaped(out, n.0.as_slice());
}

fn printable(t: &[u8]) -> (r: bool)
    ensures
        r == is_printable(t@),
{
    let mut i: usize = 0;
    while i < t.len()
        invariant
            i <= t.len(),
            forall|j: int| 0 <= j < i ==> 0x20 <= #[trigger] t@[j] <= 0x7e,
        decreases t.len() - i,
    {
        if t[i] < 0x20 || t[i] > 0x7e {
            return false;
        }
        i = i + 1;
    }
    true
}

/// Append the text of a string to `out`.
pub fn push_string_text(out: &mut Vec<u8>, t: &[u8])
    ensures
        final(out)@ == old(out)@ + string_text(t@),
{
    if printable(t) {
        out.push(0x22);
        let ghost start = out@;
        let mut i: usize = 0;
        while i < t.len()
            invariant
                i <= t.len(),
                out@ == start + quote_escaped(t@.subrange(0, i as int)),
            decreases t.len() - i,
        {
            let b = t[i];
            if b == 0x22 || b == 0x5c {
                out.push(0x5c);
            }
            out.push(b);
            proof {
                let p = t@.subrange(0, i + 1);
                assert(p.drop_last() == t@.subrange(0, i as int));
            }
            i = i + 1;
        }
        assert(t@.subrange(0, t.len() as int) == t@);
        out.push(0x22);
    } else {
        out.push(0x5b);
        let ghost start = out@;
        let mut i: usize = 0;
        while i < t.len()
            invariant
                i <= t.len(),
                out@ == start + byte_list(t@.subrange(0, i as int)),
            decreases t.len() - i,
        {
            if i > 0 {
                out.push(0x2c);
                out.push(0x20);
            }
            push_decimal(out, t[i] as u64);
            proof {
                let p = t@.subrange(0, i + 1);
                assert(p.drop_last() == t@.subrange(0, i as int));
                if i == 0 {
                    assert(p.len() == 1);
                }
            }
            i = i + 1;
        }
        assert(t@.subrange(0, t.len() as int) == t@);
        out.push(0x5d);
    }
}

/// Append the text of an object to `out`.
pub fn push_object_text(out: &mut Vec<u8>, o: &Object)
    ensures
        final(out)@ == old(out)@ + object_text(o.view()),
    decreases o,
{
    match o {
        Object::Null => {
            out.push(0x6e);
            out.push(0x75);
            out.push(0x6c);
            out.push(0x6c);
        },
        Object::Boolean(b) => {
            if *b {
                out.push(0x74);
                out.push(0x72);
                out.push(0x75);
                out.push(0x65);
            } else {
                out.push(0x66);
                out.push(0x61);
                out.push(0x6c);
                out.push(0x73);
                out.push(0x65);
            }
        },
        Object::Number(n) => {
            push_number(out, n);
        },
        Object::Name(n) => {
            push_name_text(out, n);
        },
        Object::String(t) => {
            push_string_text(out, t.0.as_slice());
        },
        Object::Array(a) => {
            out.push(0x5b);
            push_objects_text(out, &a.0);
            out.push(0x5d);
        },
        Object::Dict(d) => {
            out.push(0x3c);
            out.push(0x3c);
            push_entries_text(out, &d.0);
            out.push(0x3e);
            out.push(0x3e);
        },
    }
}

/// Append the entries of a dictionary as `key value`, separated by spaces.
pub fn push_entries_text(out: &mut Vec<u8>, v: &Vec<(Name, Object)>)
    ensures
        final(out)@ == old(out)@ + entries_text(view_entries(v@)),
    decreases v,
{
    let ghost start = out@;
    let mut i: usize = 0;
    while i < v.len()
        invariant
            i <= v.len(),
            out@ == start + entries_text(view_entries(v@.subrange(0, i as int))),
        decreases v.len() - i,
    {
        if i > 0 {
            out.push(0x20);
        }
        let entry = &v[i];
        push_name_text(out, &entry.0);
        out.push(0x20);
        proof {
            assert(decreases_to!(v@[i as int] => v@[i as int].1));
        }
        push_object_text(out, &entry.1);
        proof {
            let p = v@.subrange(0, i + 1);
            assert(p.drop_last() == v@.subrange(0, i as int));
            lemma_view_entries(p);
            lemma_view_entries(v@.subrange(0, i as int));
            assert(view_entries(p).drop_last() == view_entries(v@.subrange(0, i as int)));
        }
        i = i + 1;
    }
    assert(v@.subrange(0, v.len() as int) == v@);
}

/// Append the texts of the objects, separated by spaces, to `out`.
pub fn push_objects_text(out: &mut Vec<u8>, v: &Vec<Object>)
    ensures
        final(out)@ == old(out)@ + objects_text(view_objects(v@)),
    decreases v,
{
    let ghost start = out@;
    let mut i: usize = 0;
    while i < v.len()
        invariant
            i <= v.len(),
            out@ == start + objects_text(view_objects(v@.subrange(0, i as int))),
        decreases v.len() - i,
    {
        if i > 0 {
            out.push(0x20);
        }
        push_object_text(out, &v[i]);
        proof {
            let p = v@.subrange(0, i + 1);
            assert(p.drop_last() == v@.subrange(0, i as int));
            lemma_view_objects(p);
            lemma_view_objects(v@.subrange(0, i as int));
            assert(view_objects(p).drop_last() == view_objects(v@.subrange(0, i as int)));
        }
        i = i + 1;
    }
    assert(v@.subrange(0, v.len() as int) == v@);
}

} // verus!
