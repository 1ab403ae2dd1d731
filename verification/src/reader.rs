//! Reading objects from bytes.
use vstd::prelude::*;
use crate::object::{Object, ObjectView, Dict};
use crate::lexer::{skip_ws, parse_object, skip_ws_exec, parse_object_exec};
use crate::decimal::{from_utf8_ascii, is_ascii_seq};

verus! {

/// A position in a byte buffer.
pub struct Reader<'a> {
    data: &'a [u8],
    offset: usize,
}

impl<'a> Reader<'a> {
    /// The bytes being read.
    pub closed spec fn bytes(&self) -> Seq<u8> {
        self.data@
    }

    /// How many bytes have been read.
    pub closed spec fn offset(&self) -> int {
        self.offset as int
    }

    /// A reader at the start of `data`.
    pub fn new(data: &'a [u8]) -> (r: Reader<'a>)
        ensures
            r.bytes() == data@,
            r.offset() == 0,
    {
        Reader { data, offset: 0 }
    }

    /// The position of the reader.
    pub fn position(&self) -> (r: usize)
        ensures
            r == self.offset(),
    {
        self.offset
    }

    /// Move past `tag` if the remaining bytes start with it; else stay.
    pub fn forward_tag(&mut self, tag: &[u8]) -> (r: Option<()>)
        ensures
            final(self).bytes() == old(self).bytes(),
            starts_with_at(old(self).bytes(), old(self).offset(), tag@) ==> r is Some && final(self).offset() == old(self).offset() + tag@.len(),
            !starts_with_at(old(self).bytes(), old(self).offset(), tag@) ==> r is None && final(self).offset() == old(self).offset(),
    {
        let s = self.data;
        if self.offset > s.len() || s.len() - self.offset < tag.len() {
            return None;
        }
        let mut i: usize = 0;
        while i < tag.len()
            invariant
                self.data == s,
                self.offset <= s.len(),
                s.len() - self.offset >= tag.len(),
                i <= tag.len(),
                forall|j: int| 0 <= j < i ==> s@[self.offset + j] == tag@[j],
            decreases tag.len() - i,
        {
            if s[self.offset + i] != tag[i] {
                proof {
                    assert(s@.subrange(self.offset as int, self.offset + tag@.len())[i as int] != tag@[i as int]);
                }
                return None;
            }
            i = i + 1;
        }
        proof {
            assert(s@.subrange(self.offset as int, self.offset + tag@.len()) =~= tag@);
        }
        self.offset = self.offset + tag.len();
        Some(())
    }

    /// Read a value of type `T` at the current position.
    pub fn read_without_context<T: Readable>(&mut self) -> (r: Option<T>)
        ensures
            final(self).bytes() == old(self).bytes(),
            match T::spec_read(old(self).bytes(), old(self).offset()) {
                Some((v, e)) => r == Some(v) && final(self).offset() == e,
                None => r is None && final(self).offset() == old(self).offset(),
            },
    {
        T::read(self)
    }
}

/// Whether `tag` stands in `s` at `p`.
pub open spec fn starts_with_at(s: Seq<u8>, p: int, tag: Seq<u8>) -> bool {
    0 <= p && p + tag.len() <= s.len() && s.subrange(p, p + tag.len()) == tag
}

/// Values that can be read from bytes.
pub trait Readable: Sized {
    /// The value that bytes hold at a position, and the position after it.
    spec fn spec_read(s: Seq<u8>, p: int) -> Option<(Self, int)>;

    /// Read a value, leaving the reader after it, or where it was when there
    /// is none.
    fn read(r: &mut Reader<'_>) -> (res: Option<Self>)
        ensures
            final(r).bytes() == old(r).bytes(),
            match Self::spec_read(old(r).bytes(), old(r).offset()) {
                Some((v, e)) => res == Some(v) && final(r).offset() == e,
                None => res is None && final(r).offset() == old(r).offset(),
            },
    ;
}

/// The null object.
#[derive(Clone, Copy, Debug, PartialEq, Eq, Hash, Structural)]
pub struct Null;

/// The keyword `null`.
pub open spec fn null_keyword() -> Seq<u8> {
    seq![0x6eu8, 0x75, 0x6c, 0x6c]
}

impl Null {
    /// Skip the keyword `null`.
    pub fn skip(r: &mut Reader<'_>) -> (res: Option<()>)
        ensures
            final(r).bytes() == old(r).bytes(),
            starts_with_at(old(r).bytes(), old(r).offset(), null_keyword()) ==> res is Some && final(r).offset() == old(r).offset() + 4,
            !starts_with_at(old(r).bytes(), old(r).offset(), null_keyword()) ==> res is None
                && final(r).offset() == old(r).offset(),
    {
        let tag: [u8; 4] = [0x6e, 0x75, 0x6c, 0x6c];
        assert(tag@ == null_keyword());
        r.forward_tag(&tag)
    }

    /// The text of the null object.
    pub fn to_string(&self) -> (r: String)
        ensures
            r@ == seq!['n', 'u', 'l', 'l'],
    {
        let mut v: Vec<u8> = Vec::new();
        v.push(0x6e);
        v.push(0x75);
        v.push(0x6c);
        v.push(0x6c);
        let r = from_utf8_ascii(v);
        assert(r@ =~= seq!['n', 'u', 'l', 'l']);
        r
    }
}

impl Readable for Null {
    /// The keyword `null`, whatever follows it.
    open spec fn spec_read(s: Seq<u8>, p: int) -> Option<(Null, int)> {
        if starts_with_at(s, p, null_keyword()) {
            Some((Null, p + 4))
        } else {
            None
        }
    }

    fn read(r: &mut Reader<'_>) -> (res: Option<Null>) {
        match Null::skip(r) {
            Some(()) => Some(Null),
            None => None,
        }
    }
}

/// The text of the null object reads back as the null object, the whole
/// of it.
pub proof fn lemma_null_text_reads_back()
    ensures
        null_keyword().map_values(|b: u8| b as char) == seq!['n', 'u', 'l', 'l'],
        <Null as Readable>::spec_read(null_keyword(), 0) == Some((Null, 4int)),
{
    assert(null_keyword().subrange(0, 4) == null_keyword());
    assert(null_keyword().map_values(|b: u8| b as char) =~= seq!['n', 'u', 'l', 'l']);
}

impl Dict {
    /// The dictionary that `data` holds, after any white space; what follows
    /// it is ignored.
    pub fn from_bytes(data: &[u8]) -> (r: Option<Dict>)
        ensures
            match parse_object(data@, skip_ws(data@, 0), 0) {
                Some((ObjectView::Dict(d), _)) => r is Some && r.unwrap().view() == d,
                _ => r is None,
            },
    {
        let p = skip_ws_exec(data, 0);
        match parse_object_exec(data, p, 0) {
            Some((Object::Dict(d), _)) => Some(d),
            _ => None,
        }
    }
}

} // verus!
