//! The operands that precede an operator, and how each kind of operator
//! takes them.
use vstd::prelude::*;
use crate::number::Number;
use crate::object::{Object, ObjectView, Name, PdfString, PdfArray, view_objects, lemma_view_objects};
use crate::operands::{NumberList, number_list};

verus! {

/// What an operator takes from the operands before it.
#[derive(Clone, Copy, Debug, PartialEq, Eq, Structural)]
pub enum Shape {
    /// No operands.
    Nothing,
    /// The last `k` operands, all numbers.
    Numbers(usize),
    /// The last operand, a name.
    Name,
    /// A name and a number.
    NameNumber,
    /// An array and a number.
    ArrayNumber,
    /// A name and any object.
    NameObject,
    /// A string.
    Text,
    /// Two numbers and a string.
    NumberNumberText,
    /// An array.
    TextArray,
    /// All operands, all numbers.
    AllNumbers,
    /// All operands, numbers and names: the numbers and the last name.
    NamedColor,
    /// An inline image, which is read from the content itself.
    InlineImage,
}

pub open spec fn nums_view(v: Seq<Number>) -> Seq<ObjectView> {
    Seq::new(v.len(), |i: int| ObjectView::Number(v[i]))
}

pub open spec fn last_k(s: Seq<ObjectView>, k: nat) -> Seq<ObjectView> {
    s.subrange(s.len() - k, s.len() as int)
}

pub open spec fn all_numbers(s: Seq<ObjectView>) -> bool {
    forall|i: int| 0 <= i < s.len() ==> #[trigger] s[i] is Number
}

pub open spec fn numbers_or_names(s: Seq<ObjectView>) -> bool {
    forall|i: int| 0 <= i < s.len() ==> #[trigger] s[i] is Number || s[i] is Name
}

/// The numbers among the operands, in order.
pub open spec fn numbers_of(s: Seq<ObjectView>) -> Seq<ObjectView>
    decreases s.len(),
{
    if s.len() == 0 {
        Seq::empty()
    } else if s.last() is Number {
        numbers_of(s.drop_last()).push(s.last())
    } else {
        numbers_of(s.drop_last())
    }
}

/// The last name among the operands, if there is one.
pub open spec fn last_name(s: Seq<ObjectView>) -> Seq<ObjectView>
    decreases s.len(),
{
    if s.len() == 0 {
        Seq::empty()
    } else if s.last() is Name {
        seq![s.last()]
    } else {
        last_name(s.drop_last())
    }
}

/// The operands that an operator of the given shape takes from the stack,
/// if the stack has them.
pub open spec fn take_operands(shape: Shape, s: Seq<ObjectView>) -> Option<Seq<ObjectView>> {
    match shape {
        Shape::Nothing => Some(Seq::empty()),
        Shape::Numbers(k) => if s.len() >= k && all_numbers(last_k(s, k as nat)) {
            Some(last_k(s, k as nat))
        } else {
            None
        },
        Shape::Name => if s.len() >= 1 && last_k(s, 1)[0] is Name {
            Some(last_k(s, 1))
        } else {
            None
        },
        Shape::NameNumber => if s.len() >= 2 && last_k(s, 2)[0] is Name && last_k(s, 2)[1] is Number {
            Some(last_k(s, 2))
        } else {
            None
        },
        Shape::ArrayNumber => if s.len() >= 2 && last_k(s, 2)[0] is Array && last_k(s, 2)[1] is Number {
            Some(last_k(s, 2))
        } else {
            None
        },
        Shape::NameObject => if s.len() >= 2 && last_k(s, 2)[0] is Name {
            Some(last_k(s, 2))
        } else {
            None
        },
        Shape::Text => if s.len() >= 1 && last_k(s, 1)[0] is String {
            Some(last_k(s, 1))
        } else {
            None
        },
        Shape::NumberNumberText => if s.len() >= 3 && last_k(s, 3)[0] is Number && last_k(s, 3)[1] is Number
            && last_k(s, 3)[2] is String {
            Some(last_k(s, 3))
        } else {
            None
        },
        Shape::TextArray => if s.len() >= 1 && last_k(s, 1)[0] is Array {
            Some(last_k(s, 1))
        } else {
            None
        },
        Shape::AllNumbers => if all_numbers(s) {
            Some(s)
        } else {
            None
        },
        Shape::NamedColor => if numbers_or_names(s) {
            Some(numbers_of(s) + last_name(s))
        } else {
            None
        },
        Shape::InlineImage => None,
    }
}

/// The last `k` numeric operands.
pub fn take_numbers(stack: &Vec<Object>, k: usize) -> (r: Option<Vec<Number>>)
    ensures
        match take_operands(Shape::Numbers(k), view_objects(stack@)) {
            Some(ops) => r is Some && r->0@.len() == k && nums_view(r->0@) == ops,
            None => r is None,
        },
{
    proof {
        lemma_view_objects(stack@);
    }
    let ghost sv = view_objects(stack@);
    if stack.len() < k {
        return None;
    }
    let start = stack.len() - k;
    let mut out: Vec<Number> = Vec::new();
    let mut i = start;
    while i < stack.len()
        invariant
            start == stack.len() - k,
            start <= i <= stack.len(),
            sv == view_objects(stack@),
            sv.len() == stack.len(),
            forall|j: int| 0 <= j < stack.len() ==> #[trigger] sv[j] == stack@[j].view(),
            out@.len() == i - start,
            forall|j: int| 0 <= j < i - start ==> sv[start + j] == ObjectView::Number(#[trigger] out@[j]),
        decreases stack.len() - i,
    {
        match &stack[i] {
            Object::Number(n) => {
                out.push(*n);
            },
            _ => {
                proof {
                    assert(!(last_k(sv, k as nat)[i - start] is Number));
                }
                return None;
            },
        }
        i = i + 1;
    }
    proof {
        assert(nums_view(out@) == last_k(sv, k as nat));
    }
    Some(out)
}

/// The last `k` operands, moved out of the stack.
pub fn take_last(stack: Vec<Object>, k: usize) -> (r: Option<Vec<Object>>)
    ensures
        match r {
            Some(v) => stack@.len() >= k && v@.len() == k && view_objects(v@) == last_k(
                view_objects(stack@),
                k as nat,
            ),
            None => stack@.len() < k,
        },
{
    if stack.len() < k {
        return None;
    }
    let mut st = stack;
    let at = st.len() - k;
    let tail = st.split_off(at);
    proof {
        lemma_view_objects(stack@);
        lemma_view_objects(tail@);
        assert(view_objects(tail@) == last_k(view_objects(stack@), k as nat));
    }
    Some(tail)
}

/// The numeric operands, all of which must be numbers.
pub fn take_all_numbers(stack: &Vec<Object>) -> (r: Option<NumberList>)
    ensures
        match take_operands(Shape::AllNumbers, view_objects(stack@)) {
            Some(ops) => r is Some && nums_view(number_list(r->0)) == ops,
            None => r is None,
        },
{
    proof {
        lemma_view_objects(stack@);
    }
    let ghost sv = view_objects(stack@);
    let mut out = NumberList::new();
    let mut i: usize = 0;
    while i < stack.len()
        invariant
            i <= stack.len(),
            sv == view_objects(stack@),
            sv.len() == stack.len(),
            forall|j: int| 0 <= j < stack.len() ==> #[trigger] sv[j] == stack@[j].view(),
            number_list(out).len() == i,
            forall|j: int| 0 <= j < i ==> sv[j] == ObjectView::Number(#[trigger] number_list(out)[j]),
        decreases stack.len() - i,
    {
        match &stack[i] {
            Object::Number(n) => {
                out.push(*n);
            },
            _ => {
                proof {
                    assert(!(sv[i as int] is Number));
                }
                return None;
            },
        }
        i = i + 1;
    }
    proof {
        assert(nums_view(number_list(out)) == sv);
    }
    Some(out)
}

proof fn lemma_numbers_of_push(s: Seq<ObjectView>, o: ObjectView)
    ensures
        numbers_of(s.push(o)) == if o is Number { numbers_of(s).push(o) } else { numbers_of(s) },
        last_name(s.push(o)) == if o is Name { seq![o] } else { last_name(s) },
{
    assert(s.push(o).drop_last() == s);
}

/// The operands of a named color: the numbers, and the last name if any.
pub fn take_named_color(stack: Vec<Object>) -> (r: Option<(NumberList, Option<Name>)>)
    ensures
        match take_operands(Shape::NamedColor, view_objects(stack@)) {
            Some(ops) => r is Some && ops == nums_view(number_list(r.unwrap().0)) + match r.unwrap().1 {
                Some(n) => seq![ObjectView::Name(n.view())],
                None => Seq::empty(),
            },
            None => r is None,
        },
{
    proof {
        lemma_view_objects(stack@);
    }
    let ghost sv = view_objects(stack@);
    let mut out = NumberList::new();
    let mut name_at: Option<usize> = None;
    let mut i: usize = 0;
    while i < stack.len()
        invariant
            i <= stack.len(),
            sv == view_objects(stack@),
            sv.len() == stack.len(),
            forall|j: int| 0 <= j < stack.len() ==> #[trigger] sv[j] == stack@[j].view(),
            number_list(out).len() <= i,
            nums_view(number_list(out)) == numbers_of(sv.subrange(0, i as int)),
            numbers_or_names(sv.subrange(0, i as int)),
            match name_at {
                Some(k) => k < i && sv[k as int] is Name && last_name(sv.subrange(0, i as int)) == seq![sv[k as int]],
                None => last_name(sv.subrange(0, i as int)) == Seq::<ObjectView>::empty(),
            },
        decreases stack.len() - i,
    {
        let ghost prefix = sv.subrange(0, i as int);
        proof {
            assert(sv.subrange(0, i + 1) == prefix.push(sv[i as int]));
            lemma_numbers_of_push(prefix, sv[i as int]);
        }
        match &stack[i] {
            Object::Number(n) => {
                let ghost before = number_list(out);
                out.push(*n);
                proof {
                    assert(nums_view(number_list(out)) == nums_view(before).push(ObjectView::Number(*n)));
                }
            },
            Object::Name(_) => {
                name_at = Some(i);
            },
            _ => {
                proof {
                    assert(!(sv.subrange(0, i + 1)[i as int] is Number) && !(sv.subrange(0, i + 1)[i as int] is Name));
                    assert(!numbers_or_names(sv));
                }
                return None;
            },
        }
        i = i + 1;
    }
    proof {
        assert(sv.subrange(0, stack.len() as int) == sv);
    }
    let mut st = stack;
    let name = match name_at {
        Some(k) => {
            let o = st.remove(k);
            match o {
                Object::Name(n) => Some(n),
                _ => None,
            }
        },
        None => None,
    };
    Some((out, name))
}


/// The last operand, a name.
pub fn take_name(stack: Vec<Object>) -> (r: Option<Name>)
    ensures
        match take_operands(Shape::Name, view_objects(stack@)) {
            Some(ops) => r is Some && ops == seq![ObjectView::Name(r.unwrap().view())],
            None => r is None,
        },
{
    let ghost sv = view_objects(stack@);
    proof {
        lemma_view_objects(stack@);
    }
    let mut v = match take_last(stack, 1) {
        Some(v) => v,
        None => {
            return None;
        },
    };
    proof {
        lemma_view_objects(v@);
    }
    let ghost items = v@;
    let o0 = v.pop().unwrap();
    proof {
        assert(o0 == items[0]);
        assert(last_k(sv, 1)[0] == o0.view());
    }
    match (o0,) {
        (Object::Name(a),) => {
            let res = a;
            assert(last_k(sv, 1) =~= seq![ObjectView::Name(res.view())]);
            Some(res)
        },
        _ => None,
    }
}

/// A name and a number.
pub fn take_name_number(stack: Vec<Object>) -> (r: Option<(Name, Number)>)
    ensures
        match take_operands(Shape::NameNumber, view_objects(stack@)) {
            Some(ops) => r is Some && ops == seq![ObjectView::Name(r.unwrap().0.view()), ObjectView::Number(r.unwrap().1)],
            None => r is None,
        },
{
    let ghost sv = view_objects(stack@);
    proof {
        lemma_view_objects(stack@);
    }
    let mut v = match take_last(stack, 2) {
        Some(v) => v,
        None => {
            return None;
        },
    };
    proof {
        lemma_view_objects(v@);
    }
    let ghost items = v@;
    let o1 = v.pop().unwrap();
    let o0 = v.pop().unwrap();
    proof {
        assert(o0 == items[0]);
        assert(last_k(sv, 2)[0] == o0.view());
        assert(o1 == items[1]);
        assert(last_k(sv, 2)[1] == o1.view());
    }
    match (o0, o1) {
        (Object::Name(a), Object::Number(b)) => {
            let res = (a, b);
            assert(last_k(sv, 2) =~= seq![ObjectView::Name(res.0.view()), ObjectView::Number(res.1)]);
            Some(res)
        },
        _ => None,
    }
}

/// An array and a number.
pub fn take_array_number(stack: Vec<Object>) -> (r: Option<(PdfArray, Number)>)
    ensures
        match take_operands(Shape::ArrayNumber, view_objects(stack@)) {
            Some(ops) => r is Some && ops == seq![ObjectView::Array(r.unwrap().0.view()), ObjectView::Number(r.unwrap().1)],
            None => r is None,
        },
{
    let ghost sv = view_objects(stack@);
    proof {
        lemma_view_objects(stack@);
    }
    let mut v = match take_last(stack, 2) {
        Some(v) => v,
        None => {
            return None;
        },
    };
    proof {
        lemma_view_objects(v@);
    }
    let ghost items = v@;
    let o1 = v.pop().unwrap();
    let o0 = v.pop().unwrap();
    proof {
        assert(o0 == items[0]);
        assert(last_k(sv, 2)[0] == o0.view());
        assert(o1 == items[1]);
        assert(last_k(sv, 2)[1] == o1.view());
    }
    match (o0, o1) {
        (Object::Array(a), Object::Number(b)) => {
            let res = (a, b);
            assert(last_k(sv, 2) =~= seq![ObjectView::Array(res.0.view()), ObjectView::Number(res.1)]);
            Some(res)
        },
        _ => None,
    }
}

/// A name and any object.
pub fn take_name_object(stack: Vec<Object>) -> (r: Option<(Name, Object)>)
    ensures
        match take_operands(Shape::NameObject, view_objects(stack@)) {
            Some(ops) => r is Some && ops == seq![ObjectView::Name(r.unwrap().0.view()), r.unwrap().1.view()],
            None => r is None,
        },
{
    let ghost sv = view_objects(stack@);
    proof {
        lemma_view_objects(stack@);
    }
    let mut v = match take_last(stack, 2) {
        Some(v) => v,
        None => {
            return None;
        },
    };
    proof {
        lemma_view_objects(v@);
    }
    let ghost items = v@;
    let o1 = v.pop().unwrap();
    let o0 = v.pop().unwrap();
    proof {
        assert(o0 == items[0]);
        assert(last_k(sv, 2)[0] == o0.view());
        assert(o1 == items[1]);
        assert(last_k(sv, 2)[1] == o1.view());
    }
    match (o0, o1) {
        (Object::Name(a), b) => {
            let res = (a, b);
            assert(last_k(sv, 2) =~= seq![ObjectView::Name(res.0.view()), res.1.view()]);
            Some(res)
        },
        _ => None,
    }
}

/// A string.
pub fn take_text(stack: Vec<Object>) -> (r: Option<PdfString>)
    ensures
        match take_operands(Shape::Text, view_objects(stack@)) {
            Some(ops) => r is Some && ops == seq![ObjectView::String(r.unwrap().view())],
            None => r is None,
        },
{
    let ghost sv = view_objects(stack@);
    proof {
        lemma_view_objects(stack@);
    }
    let mut v = match take_last(stack, 1) {
        Some(v) => v,
        None => {
            return None;
        },
    };
    proof {
        lemma_view_objects(v@);
    }
    let ghost items = v@;
    let o0 = v.pop().unwrap();
    proof {
        assert(o0 == items[0]);
        assert(last_k(sv, 1)[0] == o0.view());
    }
    match (o0,) {
        (Object::String(a),) => {
            let res = a;
            assert(last_k(sv, 1) =~= seq![ObjectView::String(res.view())]);
            Some(res)
        },
        _ => None,
    }
}

/// Two numbers and a string.
pub fn take_number_number_text(stack: Vec<Object>) -> (r: Option<(Number, Number, PdfString)>)
    ensures
        match take_operands(Shape::NumberNumberText, view_objects(stack@)) {
            Some(ops) => r is Some && ops == seq![ObjectView::Number(r.unwrap().0), ObjectView::Number(r.unwrap().1), ObjectView::String(r.unwrap().2.view())],
            None => r is None,
        },
{
    let ghost sv = view_objects(stack@);
    proof {
        lemma_view_objects(stack@);
    }
    let mut v = match take_last(stack, 3) {
        Some(v) => v,
        None => {
            return None;
        },
    };
    proof {
        lemma_view_objects(v@);
    }
    let ghost items = v@;
    let o2 = v.pop().unwrap();
    let o1 = v.pop().unwrap();
    let o0 = v.pop().unwrap();
    proof {
        assert(o0 == items[0]);
        assert(last_k(sv, 3)[0] == o0.view());
        assert(o1 == items[1]);
        assert(last_k(sv, 3)[1] == o1.view());
        assert(o2 == items[2]);
        assert(last_k(sv, 3)[2] == o2.view());
    }
    match (o0, o1, o2) {
        (Object::Number(a), Object::Number(b), Object::String(c)) => {
            let res = (a, b, c);
            assert(last_k(sv, 3) =~= seq![ObjectView::Number(res.0), ObjectView::Number(res.1), ObjectView::String(res.2.view())]);
            Some(res)
        },
        _ => None,
    }
}

/// An array.
pub fn take_text_array(stack: Vec<Object>) -> (r: Option<PdfArray>)
    ensures
        match take_operands(Shape::TextArray, view_objects(stack@)) {
            Some(ops) => r is Some && ops == seq![ObjectView::Array(r.unwrap().view())],
            None => r is None,
        },
{
    let ghost sv = view_objects(stack@);
    proof {
        lemma_view_objects(stack@);
    }
    let mut v = match take_last(stack, 1) {
        Some(v) => v,
        None => {
            return None;
        },
    };
    proof {
        lemma_view_objects(v@);
    }
    let ghost items = v@;
    let o0 = v.pop().unwrap();
    proof {
        assert(o0 == items[0]);
        assert(last_k(sv, 1)[0] == o0.view());
    }
    match (o0,) {
        (Object::Array(a),) => {
            let res = a;
            assert(last_k(sv, 1) =~= seq![ObjectView::Array(res.view())]);
            Some(res)
        },
        _ => None,
    }
}

} // verus!
