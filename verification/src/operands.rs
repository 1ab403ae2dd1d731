//! Short lists of numeric operands, held in a `SmallVec`.
use vstd::prelude::*;
use smallvec::SmallVec;
use crate::number::Number;

verus! {

/// How many operands a list keeps inline.
pub const OPERANDS_THRESHOLD: usize = 6;

/// A list of numbers that keeps up to `OPERANDS_THRESHOLD` of them inline.
#[verifier::external_body]
#[derive(Debug, PartialEq)]
pub struct NumberList {
    inner: SmallVec<[Number; OPERANDS_THRESHOLD]>,
}

/// The numbers a list holds, in order.
pub uninterp spec fn number_list(v: NumberList) -> Seq<Number>;

impl NumberList {
    /// `SmallVec::new`: an empty list.
    #[verifier::external_body]
    pub(crate) fn new() -> (r: NumberList)
        ensures
            number_list(r) == Seq::<Number>::empty(),
    {
        NumberList { inner: SmallVec::new() }
    }

    /// `SmallVec::push`: appends one number at the end; it panics only when
    /// the length would overflow, which `requires` rules out.
    #[verifier::external_body]
    pub(crate) fn push(&mut self, n: Number)
        requires
            number_list(*old(self)).len() < usize::MAX,
        ensures
            number_list(*final(self)) == number_list(*old(self)).push(n),
    {
        self.inner.push(n)
    }

    /// `SmallVec::as_slice`: the numbers of the list as a slice.
    #[verifier::external_body]
    pub fn as_slice(&self) -> (r: &[Number])
        ensures
            r@ == number_list(*self),
    {
        self.inner.as_slice()
    }
}

} // verus!
