//! Iterating over the instructions of a content stream.
use vstd::prelude::*;
use crate::chars::{is_white, is_delim, is_regular, white, delim, regular};
use crate::object::{Object, ObjectView, Name, Dict, Stream, view_objects, view_entries, lemma_view_objects};
use crate::lexer::{skip_ws, regular_end, keyword_or_number, parse_object, decode_name, lemma_skip_ws,
    lemma_regular_end, skip_ws_exec, regular_end_exec, keyword_or_number_exec, parse_object_exec,
    decode_name_exec, object_result_matches};
use crate::ops::{TypedInstruction, InstructionView, InlineImage, OpKind, kind_operator, spec_dispatch, dispatch};

verus! {

/// What a token in a content stream is: an operand or an operator.
pub enum OperandView {
    Obj(ObjectView),
    Op(Seq<u8>),
}

/// An operand or an operator.
pub enum Operand {
    Obj(Object),
    Op(Vec<u8>),
}

impl Operand {
    pub open spec fn view(&self) -> OperandView {
        match self {
            Operand::Obj(o) => OperandView::Obj(o.view()),
            Operand::Op(t) => OperandView::Op(t@),
        }
    }
}

/// The token at `p`: a run of regular characters is a keyword or number if
/// it spells one and an operator otherwise; anything else must be an object.
pub open spec fn parse_operand(s: Seq<u8>, p: int) -> Option<(OperandView, int)> {
    if p < 0 || p >= s.len() {
        None
    } else if is_regular(s[p]) {
        let e = regular_end(s, p);
        match keyword_or_number(s.subrange(p, e)) {
            Some(o) => Some((OperandView::Obj(o), e)),
            None => Some((OperandView::Op(s.subrange(p, e)), e)),
        }
    } else {
        match parse_object(s, p, 0) {
            Some((o, e)) => Some((OperandView::Obj(o), e)),
            None => None,
        }
    }
}

/// Gather operands from `p` on up to the next operator: the operands, the
/// operator and the position after it.
pub open spec fn collect(s: Seq<u8>, p: int, stack: Seq<ObjectView>) -> Option<
    (Seq<ObjectView>, Seq<u8>, int),
>
    decreases s.len() - p,
{
    if p < 0 || p > s.len() {
        None
    } else {
        proof {
            lemma_skip_ws(s, p);
        }
        let q = skip_ws(s, p);
        match parse_operand(s, q) {
            None => None,
            Some((OperandView::Op(t), e)) => Some((stack, t, e)),
            Some((OperandView::Obj(o), e)) => if q < e <= s.len() {
                collect(s, e, stack.push(o))
            } else {
                None
            },
        }
    }
}

/// The entries of an inline image's dictionary, up to its `ID` operator.
pub open spec fn inline_dict(s: Seq<u8>, p: int, acc: Seq<(Seq<u8>, ObjectView)>) -> Option<
    (Seq<(Seq<u8>, ObjectView)>, int),
>
    decreases s.len() - p,
{
    if p < 0 || p > s.len() {
        None
    } else {
        proof {
            lemma_skip_ws(s, p);
        }
        let q = skip_ws(s, p);
        if q >= s.len() {
            None
        } else if s[q] == 0x2f {
            proof {
                lemma_regular_end(s, q + 1);
            }
            let ke = regular_end(s, q + 1);
            proof {
                lemma_skip_ws(s, ke);
            }
            let v = skip_ws(s, ke);
            match parse_object(s, v, 0) {
                Some((o, e)) => if q < e <= s.len() {
                    inline_dict(s, e, acc.push((decode_name(s.subrange(q + 1, ke)), o)))
                } else {
                    None
                },
                None => None,
            }
        } else if is_regular(s[q]) && s.subrange(q, regular_end(s, q)) == seq![0x49u8, 0x44] {
            Some((acc, regular_end(s, q)))
        } else {
            None
        }
    }
}

/// Whether `EI`, preceded by white space and followed by white space, a
/// delimiter or the end, stands at `j + 1`.
pub open spec fn ends_inline_data(s: Seq<u8>, j: int) -> bool {
    &&& 0 <= j
    &&& j + 2 < s.len()
    &&& is_white(s[j])
    &&& s[j + 1] == 0x45
    &&& s[j + 2] == 0x49
    &&& (j + 3 == s.len() || is_white(s[j + 3]) || is_delim(s[j + 3]))
}

/// The first position at or after `p` where the data of an inline image ends.
pub open spec fn inline_data_end(s: Seq<u8>, p: int) -> Option<int>
    decreases s.len() - p,
{
    if p < 0 || p + 2 >= s.len() {
        None
    } else if ends_inline_data(s, p) {
        Some(p)
    } else {
        inline_data_end(s, p + 1)
    }
}

/// The inline image whose dictionary starts at `p`, after its `BI`.
pub open spec fn inline_image(s: Seq<u8>, p: int) -> Option<(InstructionView, int)> {
    match inline_dict(s, p, Seq::empty()) {
        Some((d, id_end)) => {
            let start = if id_end < s.len() && is_white(s[id_end]) {
                id_end + 1
            } else {
                id_end
            };
            match inline_data_end(s, start) {
                Some(j) => Some((InstructionView::InlineImage(d, s.subrange(start, j)), j + 3)),
                None => None,
            }
        },
        None => None,
    }
}

/// The next instruction from `p` on and the position after it. An operator
/// whose operands do not fit it is skipped, with its operands.
pub open spec fn next_instruction(s: Seq<u8>, p: int) -> Option<(InstructionView, int)>
    decreases s.len() - p,
{
    match collect(s, p, Seq::empty()) {
        Some((stack, op, e)) => if op == kind_operator(OpKind::InlineImage) {
            inline_image(s, e)
        } else {
            match spec_dispatch(op, stack) {
                Some(iv) => Some((iv, e)),
                None => if p < e <= s.len() {
                    next_instruction(s, e)
                } else {
                    None
                },
            }
        },
        None => None,
    }
}

/// Read the operand or operator at `p`.
pub fn parse_operand_exec(s: &[u8], p: usize) -> (r: Option<(Operand, usize)>)
    requires
        p <= s.len(),
    ensures
        match parse_operand(s@, p as int) {
            Some((o, e)) => r is Some && r.unwrap().0.view() == o && r.unwrap().1 as int == e,
            None => r is None,
        },
        r matches Some((_, e)) ==> e <= s.len(),
{
    if p >= s.len() {
        return None;
    }
    if regular(s[p]) {
        let e = regular_end_exec(s, p);
        match keyword_or_number_exec(s, p, e) {
            Some(o) => Some((Operand::Obj(o), e)),
            None => {
                let mut t: Vec<u8> = Vec::new();
                crate::decimal::push_all(&mut t, slice_range(s, p, e));
                Some((Operand::Op(t), e))
            },
        }
    } else {
        match parse_object_exec(s, p, 0) {
            Some((o, e)) => Some((Operand::Obj(o), e)),
            None => None,
        }
    }
}

/// The bytes `s[a..b]`.
fn slice_range(s: &[u8], a: usize, b: usize) -> (r: &[u8])
    requires
        a <= b <= s.len(),
    ensures
        r@ == s@.subrange(a as int, b as int),
{
    let (head, _) = s.split_at(b);
    let (_, mid) = head.split_at(a);
    mid
}

/// Gather operands from `p` on up to the next operator.
pub fn collect_exec(s: &[u8], p: usize) -> (r: Option<(Vec<Object>, Vec<u8>, usize)>)
    requires
        p <= s.len(),
    ensures
        match collect(s@, p as int, Seq::empty()) {
            Some((stack, op, e)) => r is Some && view_objects(r.unwrap().0@) == stack && r.unwrap().1@ == op
                && r.unwrap().2 as int == e,
            None => r is None,
        },
        r matches Some((_, _, e)) ==> e <= s.len(),
{
    let mut stack: Vec<Object> = Vec::new();
    let mut pos = p;
    while pos <= s.len()
        invariant
            pos <= s.len(),
            collect(s@, p as int, Seq::empty()) == collect(s@, pos as int, view_objects(stack@)),
        decreases s.len() - pos,
    {
        let q = skip_ws_exec(s, pos);
        match parse_operand_exec(s, q) {
            None => {
                return None;
            },
            Some((Operand::Op(t), e)) => {
                return Some((stack, t, e));
            },
            Some((Operand::Obj(o), e)) => {
                if q < e && e <= s.len() {
                    let ghost prev = stack@;
                    stack.push(o);
                    proof {
                        assert(stack@.drop_last() == prev);
                    }
                    pos = e;
                } else {
                    return None;
                }
            },
        }
    }
    None
}

/// Read the dictionary of an inline image up to its `ID`.
pub fn inline_dict_exec(s: &[u8], p: usize) -> (r: Option<(Dict, usize)>)
    requires
        p <= s.len(),
    ensures
        match inline_dict(s@, p as int, Seq::empty()) {
            Some((d, e)) => r is Some && r.unwrap().0.view() == d && r.unwrap().1 as int == e,
            None => r is None,
        },
        r matches Some((_, e)) ==> e <= s.len(),
{
    let mut acc: Vec<(Name, Object)> = Vec::new();
    let mut pos = p;
    while pos <= s.len()
        invariant
            pos <= s.len(),
            inline_dict(s@, p as int, Seq::empty()) == inline_dict(s@, pos as int, view_entries(acc@)),
        decreases s.len() - pos,
    {
        let q = skip_ws_exec(s, pos);
        if q >= s.len() {
            return None;
        }
        if s[q] == 0x2f {
            let ke = regular_end_exec(s, q + 1);
            let key = decode_name_exec(s, q + 1, ke);
            let v = skip_ws_exec(s, ke);
            match parse_object_exec(s, v, 0) {
                Some((o, e)) => {
                    if q < e && e <= s.len() {
                        let ghost prev = acc@;
                        acc.push((Name(key), o));
                        proof {
                            assert(acc@.drop_last() == prev);
                        }
                        pos = e;
                    } else {
                        return None;
                    }
                },
                None => {
                    return None;
                },
            }
        } else if regular(s[q]) {
            let e = regular_end_exec(s, q);
            if e - q == 2 && s[q] == 0x49 && s[q + 1] == 0x44 {
                proof {
                    assert(s@.subrange(q as int, e as int) == seq![0x49u8, 0x44]);
                }
                return Some((Dict(acc), e));
            } else {
                proof {
                    let t = s@.subrange(q as int, e as int);
                    if t == seq![0x49u8, 0x44] {
                        assert(t[0] == s@[q as int] && t[1] == s@[q + 1]);
                    }
                }
                return None;
            }
        } else {
            return None;
        }
    }
    None
}

/// Find where the data of an inline image ends, from `p` on.
pub fn inline_data_end_exec(s: &[u8], p: usize) -> (r: Option<usize>)
    requires
        p <= s.len(),
    ensures
        match inline_data_end(s@, p as int) {
            Some(j) => r == Some(j as usize) && p <= j && j + 3 <= s.len(),
            None => r is None,
        },
{
    let mut j = p;
    while s.len() >= 3 && j < s.len() - 2
        invariant
            p <= j,
            inline_data_end(s@, p as int) == inline_data_end(s@, j as int),
            forall|k: int| p <= k < j ==> !ends_inline_data(s@, k),
        decreases s.len() - j,
    {
        if white(s[j]) && s[j + 1] == 0x45 && s[j + 2] == 0x49 && (j + 3 == s.len() || white(s[j + 3])
            || delim(s[j + 3])) {
            return Some(j);
        }
        j = j + 1;
    }
    None
}

/// Read an inline image whose dictionary starts at `p`.
pub fn inline_image_exec(s: &[u8], p: usize) -> (r: Option<(TypedInstruction, usize)>)
    requires
        p <= s.len(),
    ensures
        match inline_image(s@, p as int) {
            Some((iv, e)) => r is Some && r.unwrap().0.view() == iv && r.unwrap().1 as int == e,
            None => r is None,
        },
        r matches Some((_, e)) ==> e <= s.len(),
{
    let (dict, id_end) = match inline_dict_exec(s, p) {
        Some(x) => x,
        None => {
            return None;
        },
    };
    let start = if id_end < s.len() && white(s[id_end]) {
        id_end + 1
    } else {
        id_end
    };
    match inline_data_end_exec(s, start) {
        Some(j) => {
            let mut data: Vec<u8> = Vec::new();
            crate::decimal::push_all(&mut data, slice_range(s, start, j));
            Some((TypedInstruction::InlineImage(InlineImage(Stream { dict, data })), j + 3))
        },
        None => None,
    }
}

/// An iterator over the instructions of a content stream.
pub struct TypedIter<'a> {
    data: &'a [u8],
    pos: usize,
}

impl<'a> TypedIter<'a> {
    /// The bytes of the content stream.
    pub closed spec fn bytes(&self) -> Seq<u8> {
        self.data@
    }

    /// Where the next instruction is read from.
    pub closed spec fn position(&self) -> int {
        self.pos as int
    }

    /// An iterator over the instructions of `data`, from its start.
    pub fn new(data: &'a [u8]) -> (r: TypedIter<'a>)
        ensures
            r.bytes() == data@,
            r.position() == 0,
    {
        TypedIter { data, pos: 0 }
    }

    /// The next instruction, or `None` at the end of the stream or at the
    /// first token that cannot be read, after which iteration stays ended.
    pub fn next(&mut self) -> (r: Option<TypedInstruction>)
        ensures
            final(self).bytes() == old(self).bytes(),
            match next_instruction(old(self).bytes(), old(self).position()) {
                Some((iv, e)) => r is Some && r.unwrap().view() == iv && final(self).position() == e,
                None => r is None && final(self).position() == old(self).bytes().len(),
            },
    {
        let s = self.data;
        if self.pos > s.len() {
            self.pos = s.len();
            return None;
        }
        let ghost p0 = self.pos as int;
        loop
            invariant
                self.data == s,
                s@ == old(self).bytes(),
                old(self).position() == p0,
                self.pos <= s.len(),
                next_instruction(s@, p0) == next_instruction(s@, self.pos as int),
            decreases s.len() - self.pos,
        {
            match collect_exec(s, self.pos) {
                None => {
                    self.pos = s.len();
                    return None;
                },
                Some((stack, op, e)) => {
                    if op.len() == 2 && op[0] == 0x42 && op[1] == 0x49 {
                        proof {
                            assert(op@ == kind_operator(OpKind::InlineImage));
                        }
                        match inline_image_exec(s, e) {
                            Some((ins, e2)) => {
                                self.pos = e2;
                                return Some(ins);
                            },
                            None => {
                                self.pos = s.len();
                                return None;
                            },
                        }
                    } else {
                        proof {
                            if op@ == kind_operator(OpKind::InlineImage) {
                                assert(op@[0] == 0x42 && op@[1] == 0x49);
                            }
                        }
                        match dispatch(op, stack) {
                            Some(ins) => {
                                self.pos = e;
                                return Some(ins);
                            },
                            None => {
                                if self.pos < e && e <= s.len() {
                                    self.pos = e;
                                } else {
                                    self.pos = s.len();
                                    return None;
                                }
                            },
                        }
                    }
                },
            }
        }
    }
}

proof fn lemma_collect_progress(s: Seq<u8>, p: int, stack: Seq<ObjectView>)
    requires
        0 <= p,
    ensures
        collect(s, p, stack) matches Some((_, _, e)) ==> p < e <= s.len(),
    decreases s.len() - p,
{
    if p <= s.len() {
        lemma_skip_ws(s, p);
        let q = skip_ws(s, p);
        if 0 <= q < s.len() && is_regular(s[q]) {
            lemma_regular_end(s, q + 1);
            lemma_regular_end(s, q);
        }
        match parse_operand(s, q) {
            Some((OperandView::Obj(o), e)) => {
                if q < e <= s.len() {
                    lemma_collect_progress(s, e, stack.push(o));
                }
            },
            _ => {},
        }
    }
}

proof fn lemma_inline_dict_progress(s: Seq<u8>, p: int, acc: Seq<(Seq<u8>, ObjectView)>)
    requires
        0 <= p,
    ensures
        inline_dict(s, p, acc) matches Some((_, e)) ==> p < e <= s.len(),
    decreases s.len() - p,
{
    if p <= s.len() {
        lemma_skip_ws(s, p);
        let q = skip_ws(s, p);
        if q < s.len() {
            if s[q] == 0x2f {
                lemma_regular_end(s, q + 1);
                let ke = regular_end(s, q + 1);
                lemma_skip_ws(s, ke);
                let v = skip_ws(s, ke);
                match parse_object(s, v, 0) {
                    Some((o, e)) => {
                        if q < e <= s.len() {
                            lemma_inline_dict_progress(s, e, acc.push((decode_name(s.subrange(q + 1, ke)), o)));
                        }
                    },
                    None => {},
                }
            } else if is_regular(s[q]) {
                lemma_regular_end(s, q + 1);
                lemma_regular_end(s, q);
            }
        }
    }
}

proof fn lemma_inline_data_end_bounds(s: Seq<u8>, p: int)
    ensures
        inline_data_end(s, p) matches Some(j) ==> p <= j && j + 3 <= s.len(),
    decreases s.len() - p,
{
    if 0 <= p && p + 2 < s.len() && !ends_inline_data(s, p) {
        lemma_inline_data_end_bounds(s, p + 1);
    }
}

/// Reading an instruction always moves forward and stays within the
/// stream, so iterating over a content stream ends.
pub proof fn lemma_next_instruction_progress(s: Seq<u8>, p: int)
    requires
        0 <= p,
    ensures
        next_instruction(s, p) matches Some((_, e)) ==> p < e <= s.len(),
    decreases s.len() - p,
{
    lemma_collect_progress(s, p, Seq::empty());
    match collect(s, p, Seq::empty()) {
        Some((stack, op, e)) => {
            if op == kind_operator(OpKind::InlineImage) {
                lemma_inline_dict_progress(s, e, Seq::empty());
                match inline_dict(s, e, Seq::empty()) {
                    Some((d, id_end)) => {
                        let start = if id_end < s.len() && is_white(s[id_end]) { id_end + 1 } else { id_end };
                        lemma_inline_data_end_bounds(s, start);
                    },
                    None => {},
                }
            } else if spec_dispatch(op, stack) is None && p < e <= s.len() {
                lemma_next_instruction_progress(s, e);
            }
        },
        None => {},
    }
}

/// At the end of a stream there is no instruction to read.
pub proof fn lemma_no_instruction_at_end(s: Seq<u8>)
    ensures
        next_instruction(s, s.len() as int) is None,
{
    assert(skip_ws(s, s.len() as int) == s.len());
}

} // verus!
