//! How the visible order of items relates to their logical order.

use vstd::prelude::*;
use crate::index::{LogIdx, VisIdx};

verus! {

/// An explicit description of a visible order that differs from the logical one.
#[derive(Debug)]
pub enum RemapDetails {
    /// Visible slot `i` shows the logical item `mapping[i]`. The mapping may
    /// reorder the items and may leave some of them out.
    Full(Vec<LogIdx>),
}

/// The relation between visible and logical positions.
#[derive(Debug)]
pub enum Remap {
    /// Nothing was sorted or filtered: visible slot `i` shows logical item `i`.
    Pristine,
    /// The visible order is given explicitly.
    Selected(RemapDetails),
}

impl RemapDetails {
    /// The logical positions of the visible slots, in visible order.
    pub open spec fn mapping(&self) -> Seq<LogIdx> {
        match self {
            RemapDetails::Full(v) => v@,
        }
    }

    /// The logical position shown in a visible slot, if the slot exists.
    pub fn get_log_idx(&self, idx: VisIdx) -> (r: Option<LogIdx>)
        ensures
            r == (if idx.0 < self.mapping().len() {
                Some(self.mapping()[idx.0 as int])
            } else {
                None
            }),
    {
        match self {
            RemapDetails::Full(v) => {
                if idx.0 < v.len() {
                    Some(v[idx.0])
                } else {
                    None
                }
            },
        }
    }
}

impl Clone for RemapDetails {
    fn clone(&self) -> (r: Self)
        ensures
            r.mapping() == self.mapping(),
    {
        match self {
            RemapDetails::Full(v) => {
                let mut copy: Vec<LogIdx> = Vec::new();
                let mut i: usize = 0;
                while i < v.len()
                    invariant
                        i <= v.len(),
                        copy@ == v@.take(i as int),
                    decreases v.len() - i,
                {
                    copy.push(v[i]);
                    i += 1;
                    assert(copy@ =~= v@.take(i as int));
                }
                assert(v@.take(v.len() as int) =~= v@);
                RemapDetails::Full(copy)
            },
        }
    }
}

impl Remap {
    /// The explicit mapping, where there is one.
    pub open spec fn mapping(&self) -> Option<Seq<LogIdx>> {
        match self {
            Remap::Pristine => None,
            Remap::Selected(details) => Some(details.mapping()),
        }
    }

    /// The logical position that a visible slot shows, if any.
    pub open spec fn log_idx_of(&self, idx: VisIdx) -> Option<LogIdx> {
        match self.mapping() {
            None => Some(LogIdx(idx.0)),
            Some(m) => if idx.0 < m.len() {
                Some(m[idx.0 as int])
            } else {
                None
            },
        }
    }

    /// Whether every logical position that the remap names lies below `log_len`.
    pub open spec fn fits(&self, log_len: nat) -> bool {
        match self.mapping() {
            None => true,
            Some(m) => forall|i: int| 0 <= i < m.len() ==> (#[trigger] m[i]).0 < log_len,
        }
    }

    /// The number of visible slots over `log_len` logical items.
    pub open spec fn vis_len(&self, log_len: nat) -> nat {
        match self.mapping() {
            None => log_len,
            Some(m) => m.len(),
        }
    }

    /// The logical position that a visible slot shows, if any.
    pub fn get_log_idx(&self, idx: VisIdx) -> (r: Option<LogIdx>)
        ensures
            r == self.log_idx_of(idx),
    {
        match self {
            Remap::Pristine => Some(LogIdx(idx.0)),
            Remap::Selected(details) => details.get_log_idx(idx),
        }
    }

    /// Tests whether every logical position that the remap names lies below
    /// `log_len`.
    pub fn is_valid_for(&self, log_len: usize) -> (r: bool)
        ensures
            r == self.fits(log_len as nat),
    {
        match self {
            Remap::Pristine => true,
            Remap::Selected(RemapDetails::Full(v)) => {
                let mut i: usize = 0;
                while i < v.len()
                    invariant
                        i <= v.len(),
                        self.mapping() == Some(v@),
                        forall|j: int| 0 <= j < i ==> (#[trigger] v@[j]).0 < log_len,
                    decreases v.len() - i,
                {
                    if v[i].0 >= log_len {
                        assert(self.mapping().unwrap()[i as int].0 >= log_len);
                        return false;
                    }
                    i += 1;
                }
                true
            },
        }
    }
}

impl Clone for Remap {
    fn clone(&self) -> (r: Self)
        ensures
            r.mapping() == self.mapping(),
    {
        match self {
            Remap::Pristine => Remap::Pristine,
            Remap::Selected(details) => Remap::Selected(details.clone()),
        }
    }
}

} // verus!
