//! Positions of items in the visible and in the logical sequence.
//!
//! The two index types are kept apart on purpose: a visible position becomes a
//! logical one only through a [`crate::remap::Remap`].

use vstd::prelude::*;

verus! {

/// Position of an item in the visible, ordered sequence.
#[derive(Clone, Copy, Debug, PartialEq, Eq, Structural, PartialOrd, Ord)]
pub struct VisIdx(pub usize);

/// Position of an item in logical storage, stable under sorting and filtering.
#[derive(Clone, Copy, Debug, PartialEq, Eq, Structural, PartialOrd, Ord)]
pub struct LogIdx(pub usize);

/// The visible positions `from, from + 1, .., to`, in ascending order.
pub open spec fn inclusive_range(from: VisIdx, to: VisIdx) -> Seq<VisIdx> {
    Seq::new((to.0 - from.0 + 1) as nat, |i: int| VisIdx((from.0 + i) as usize))
}

/// An ascending run of visible positions that is handed out one by one.
///
/// Its view is the sequence of positions that are still to come.
#[derive(Clone, Copy, Debug)]
pub struct VisIdxRange {
    next: usize,
    last: usize,
    exhausted: bool,
}

impl View for VisIdxRange {
    type V = Seq<VisIdx>;

    closed spec fn view(&self) -> Seq<VisIdx> {
        if self.exhausted || self.next > self.last {
            Seq::empty()
        } else {
            inclusive_range(VisIdx(self.next), VisIdx(self.last))
        }
    }
}

impl VisIdxRange {
    /// Hands out the first position that is still to come, if any.
    pub fn next(&mut self) -> (r: Option<VisIdx>)
        ensures
            old(self)@.len() == 0 ==> r.is_none() && final(self)@ == old(self)@,
            old(self)@.len() > 0 ==> r == Some(old(self)@[0]) && final(self)@ == old(self)@.skip(1),
    {
        if self.exhausted || self.next > self.last {
            return None;
        }
        let cur: usize = self.next;
        if cur == self.last {
            self.exhausted = true;
        } else {
            self.next = cur + 1;
        }
        assert(final(self)@ =~= old(self)@.skip(1));
        Some(VisIdx(cur))
    }
}

impl VisIdx {
    /// The positions from `from_inc` to `to_inc`, both included, in ascending order.
    pub fn range_inc_iter(from_inc: VisIdx, to_inc: VisIdx) -> (r: VisIdxRange)
        requires
            from_inc.0 <= to_inc.0,
        ensures
            r@ == inclusive_range(from_inc, to_inc),
    {
        VisIdxRange { next: from_inc.0, last: to_inc.0, exhausted: false }
    }
}

impl core::ops::Add<usize> for VisIdx {
    type Output = VisIdx;

    fn add(self, rhs: usize) -> (r: VisIdx) {
        VisIdx(self.0 + rhs)
    }
}

impl vstd::std_specs::ops::AddSpecImpl<usize> for VisIdx {
    open spec fn obeys_add_spec() -> bool {
        true
    }

    open spec fn add_req(self, rhs: usize) -> bool {
        self.0 + rhs <= usize::MAX
    }

    open spec fn add_spec(self, rhs: usize) -> VisIdx {
        VisIdx((self.0 + rhs) as usize)
    }
}

impl core::ops::Sub<usize> for VisIdx {
    type Output = VisIdx;

    fn sub(self, rhs: usize) -> (r: VisIdx) {
        VisIdx(self.0 - rhs)
    }
}

impl vstd::std_specs::ops::SubSpecImpl<usize> for VisIdx {
    open spec fn obeys_sub_spec() -> bool {
        true
    }

    open spec fn sub_req(self, rhs: usize) -> bool {
        rhs <= self.0
    }

    open spec fn sub_spec(self, rhs: usize) -> VisIdx {
        VisIdx((self.0 - rhs) as usize)
    }
}

} // verus!
