//! The mathematical model of an axis: a border width and the extents of the
//! visible items, from which every pixel offset follows.

use vstd::prelude::*;
use crate::index::VisIdx;

verus! {

/// A pixel offset along the axis. Offsets before the first item are negative.
pub type Pixel = i128;

/// The pixel length of one item, or the width of the border after it.
pub type Extent = u32;

/// Border width and extents of the visible items, in visible order.
///
/// Item `i` starts at `start(i)` and is followed by one border; the next item
/// starts right after that border.
pub struct AxisLayout {
    pub border: Extent,
    pub lengths: Seq<Extent>,
}

impl AxisLayout {
    /// The number of visible items.
    pub open spec fn count(self) -> nat {
        self.lengths.len()
    }

    /// The offset at which item `i` starts: the extents of the `i` items
    /// before it, each with its border. `start(count())` is the offset right
    /// after the last border.
    pub open spec fn start(self, i: int) -> int
        decreases i,
    {
        if i <= 0 {
            0
        } else {
            self.start(i - 1) + self.lengths[i - 1] + self.border
        }
    }

    /// The sum over all visible items of extent plus border.
    pub open spec fn total(self) -> int {
        self.start(self.count() as int)
    }

    /// Among the first `n` items, the last one that starts at or before `pixel`.
    pub open spec fn last_at_or_before(self, pixel: int, n: int) -> Option<VisIdx>
        decreases n,
    {
        if n <= 0 {
            None
        } else if self.start(n - 1) <= pixel {
            Some(VisIdx((n - 1) as usize))
        } else {
            self.last_at_or_before(pixel, n - 1)
        }
    }

    /// The item found at `pixel`: the one with the greatest start at or before
    /// `pixel`, and of several items with that start the last.
    pub open spec fn item_at(self, pixel: int) -> Option<VisIdx> {
        self.last_at_or_before(pixel, self.count() as int)
    }

    /// Whether the layout can be held by a machine: its items can be counted
    /// in a `usize`.
    pub open spec fn countable(self) -> bool {
        self.count() <= usize::MAX
    }

    /// Every start lies between 0 and the widest that `i` items can be.
    pub proof fn lemma_start_bounds(self, i: int)
        requires
            0 <= i <= self.count(),
        ensures
            0 <= self.start(i) <= i * (2 * (u32::MAX as int)),
        decreases i,
    {
        if i > 0 {
            self.lemma_start_bounds(i - 1);
            assert(i * (2 * (u32::MAX as int)) == (i - 1) * (2 * (u32::MAX as int)) + 2 * (
            u32::MAX as int)) by (nonlinear_arith);
        }
    }

    /// In a countable layout every start, and the total, fits a `Pixel`.
    pub proof fn lemma_start_fits(self, i: int)
        requires
            self.countable(),
            0 <= i <= self.count(),
        ensures
            0 <= self.start(i) <= 0x2_0000_0000_0000_0000_0000_0000,
            self.start(i) <= i128::MAX,
    {
        self.lemma_start_bounds(i);
        assert(i * (2 * (u32::MAX as int)) <= 0x2_0000_0000_0000_0000_0000_0000) by (nonlinear_arith)
            requires
                0 <= i <= 0xffff_ffff_ffff_ffff,
        ;
    }

    /// Starts never decrease along the axis.
    pub proof fn lemma_start_monotonic(self, i: int, j: int)
        requires
            0 <= i <= j <= self.count(),
        ensures
            self.start(i) <= self.start(j),
        decreases j - i,
    {
        if i < j {
            self.lemma_start_monotonic(i, j - 1);
        }
    }

    /// What `last_at_or_before` finds: nothing exactly when none of the first
    /// `n` items starts at or before `pixel`, and else the one after which
    /// every later item among them starts past `pixel`.
    pub proof fn lemma_last_at_or_before(self, pixel: int, n: int)
        requires
            0 <= n <= self.count(),
            self.countable(),
        ensures
            self.last_at_or_before(pixel, n) is None <==> (n == 0 || pixel < 0),
            self.last_at_or_before(pixel, n) matches Some(v) ==> {
                &&& v.0 < n
                &&& self.start(v.0 as int) <= pixel
                &&& forall|j: int| v.0 < j < n ==> pixel < self.start(j)
            },
        decreases n,
    {
        if n > 0 {
            self.lemma_last_at_or_before(pixel, n - 1);
            self.lemma_start_monotonic(0, n - 1);
        }
    }

    /// `item_at` answers `Some(v)` for exactly one `v`: the last item that
    /// starts at or before `pixel`.
    pub proof fn lemma_item_at_unique(self, pixel: int, v: VisIdx)
        requires
            self.countable(),
            v.0 < self.count(),
            self.start(v.0 as int) <= pixel,
            v.0 + 1 < self.count() ==> pixel < self.start(v.0 + 1),
        ensures
            self.item_at(pixel) == Some(v),
    {
        let n = self.count() as int;
        self.lemma_last_at_or_before(pixel, n);
        self.lemma_start_monotonic(0, v.0 as int);
        let w = self.item_at(pixel).unwrap();
        if w.0 < v.0 {
            assert(pixel < self.start(v.0 as int));
        } else if w.0 > v.0 {
            self.lemma_start_monotonic(v.0 + 1, w.0 as int);
        }
    }
}

} // verus!
