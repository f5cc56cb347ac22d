//! What every axis measure can do: turn pixel offsets into visible items and
//! back, answer range queries, and resize single items.

use vstd::prelude::*;
use crate::index::VisIdx;
use crate::layout::{AxisLayout, Extent, Pixel};
use crate::remap::Remap;

verus! {

/// How close, in pixels, an offset has to be to the middle of a border to
/// count as lying on it.
pub const MOUSE_MOVE_EPSILON: Extent = 3;

/// The start of the visible range that a pixel range covers: the item found
/// at the near pixel, or the first item where none is found.
pub open spec fn range_start(hit: Option<VisIdx>) -> VisIdx {
    match hit {
        Some(v) => v,
        None => VisIdx(0),
    }
}

/// The end of the visible range that a pixel range covers: the item found at
/// the far pixel, or the last of `count` items where none is found.
pub open spec fn range_end(hit: Option<VisIdx>, count: nat) -> VisIdx {
    match hit {
        Some(v) => v,
        None => VisIdx((count - 1) as usize),
    }
}

/// The extent that ends an item at `pixel` when it starts at `first`: their
/// distance, not below zero and not above what an `Extent` holds.
pub open spec fn extent_to(first: int, pixel: int) -> Extent {
    if pixel <= first {
        0
    } else if pixel - first >= Extent::MAX {
        Extent::MAX
    } else {
        (pixel - first) as Extent
    }
}

/// The border that `pixel` lies on, given the item `hit` that was found at
/// `pixel`.
///
/// The middle of the border before item `i` is half a border before
/// `start(i)`. An offset less than `MOUSE_MOVE_EPSILON` away from the middle
/// before the found item names that item; failing that, one as close to the
/// middle after it names the item that follows. All distances are compared
/// doubled, so that half pixels are exact.
pub open spec fn near_border(layout: AxisLayout, hit: Option<VisIdx>, pixel: int) -> Option<
    VisIdx,
> {
    match hit {
        None => None,
        Some(idx) => {
            let leading = 2 * (pixel - layout.start(idx.0 as int)) + layout.border;
            let trailing = 2 * (pixel - layout.start(idx.0 + 1)) + layout.border;
            if -2 * MOUSE_MOVE_EPSILON < leading < 2 * MOUSE_MOVE_EPSILON {
                Some(idx)
            } else if -2 * MOUSE_MOVE_EPSILON < trailing < 2 * MOUSE_MOVE_EPSILON {
                Some(VisIdx((idx.0 + 1) as usize))
            } else {
                None
            }
        },
    }
}

/// A measure of one axis of a table.
///
/// Every measure has a layout, and answers questions about offsets from it.
/// Which item it finds at an offset, and what a resize does, is for each
/// measure to say.
pub trait AxisMeasure: Clone {
    /// The invariant of the measure. Constructors establish it and every
    /// method keeps it.
    spec fn wf(&self) -> bool;

    /// Border and extents of the visible items.
    spec fn layout(&self) -> AxisLayout;

    /// The visible item that this measure finds at `pixel`.
    spec fn item_at(&self, pixel: int) -> Option<VisIdx>;

    /// Whether the item in a visible slot can be resized on its own.
    spec fn resizable(&self, idx: VisIdx) -> bool;

    /// What a well-formed measure owes its users: a layout that can be
    /// counted, and items found only where they start at or before the pixel.
    proof fn lemma_wf(&self, pixel: int)
        requires
            self.wf(),
        ensures
            self.layout().countable(),
            self.item_at(pixel) matches Some(v) ==> v.0 < self.layout().count()
                && self.layout().start(v.0 as int) <= pixel,
    ;

    /// The gap between two items.
    fn border(&self) -> (r: Extent)
        requires
            self.wf(),
        ensures
            r == self.layout().border,
    ;

    /// Sets the measure up for `len` logical items with the given border,
    /// shown in the order that `remap` gives.
    fn set_axis_properties(&mut self, border: Extent, len: usize, remap: &Remap)
        requires
            old(self).wf(),
            remap.fits(len as nat),
        ensures
            final(self).wf(),
            final(self).layout().border == border,
    ;

    /// The sum over all visible items of extent plus border.
    fn total_pixel_length(&self) -> (r: Pixel)
        requires
            self.wf(),
        ensures
            r == self.layout().total(),
    ;

    /// The visible item at `pixel`, if there is one.
    fn vis_from_pixel(&self, pixel: Pixel) -> (r: Option<VisIdx>)
        requires
            self.wf(),
        ensures
            r == self.item_at(pixel as int),
            pixel < 0 ==> r is None,
    ;

    /// The visible items that the pixels from `near` to `far` cover, both ends
    /// included. An end at which no item is found is taken to the first
    /// item, or to the last.
    fn vis_range_from_pixels(&self, near: Pixel, far: Pixel) -> (r: (VisIdx, VisIdx))
        requires
            self.wf(),
            self.layout().count() > 0,
        ensures
            r.0 == range_start(self.item_at(near as int)),
            r.1 == range_end(self.item_at(far as int), self.layout().count()),
            r.0.0 < self.layout().count(),
            r.1.0 < self.layout().count(),
    ;

    /// The offset at which a visible item starts.
    fn first_pixel_from_vis(&self, idx: VisIdx) -> (r: Option<Pixel>)
        requires
            self.wf(),
        ensures
            idx.0 >= self.layout().count() ==> r is None,
            idx.0 < self.layout().count() ==> r == Some(self.layout().start(idx.0 as int) as Pixel),
            r matches Some(p) ==> p == self.layout().start(idx.0 as int),
    ;

    /// The extent of a visible item.
    fn pixels_length_for_vis(&self, idx: VisIdx) -> (r: Option<Extent>)
        requires
            self.wf(),
        ensures
            r == (if idx.0 < self.layout().count() {
                Some(self.layout().lengths[idx.0 as int])
            } else {
                None
            }),
    ;

    /// Resizes a visible item so that it ends at `pixel`, and returns the
    /// extent it then has. Nothing changes where the item cannot be resized.
    fn set_far_pixel_for_vis(&mut self, idx: VisIdx, pixel: Pixel) -> (r: Extent)
        requires
            old(self).wf(),
        ensures
            final(self).wf(),
            final(self).layout().border == old(self).layout().border,
            final(self).layout().count() == old(self).layout().count(),
            !old(self).resizable(idx) ==> final(self).layout() == old(self).layout(),
    ;

    /// Gives a visible item the extent `length`, and returns the extent it
    /// then has. Nothing changes where the item cannot be resized.
    fn set_pixel_length_for_vis(&mut self, idx: VisIdx, length: Extent) -> (r: Extent)
        requires
            old(self).wf(),
        ensures
            final(self).wf(),
            final(self).layout().border == old(self).layout().border,
            final(self).layout().count() == old(self).layout().count(),
            !old(self).resizable(idx) ==> final(self).layout() == old(self).layout(),
    ;

    /// Whether the item in a visible slot can be resized on its own.
    fn can_resize(&self, idx: VisIdx) -> (r: bool)
        requires
            self.wf(),
        ensures
            r == self.resizable(idx),
    ;

    /// The border that `pixel` lies on, named by the item that follows it:
    /// the item found at `pixel` where its leading border is hit, the next
    /// one where its trailing border is hit, and none where neither is.
    fn pixel_near_border(&self, pixel: Pixel) -> (r: Option<VisIdx>)
        requires
            self.wf(),
        ensures
            r == near_border(self.layout(), self.item_at(pixel as int), pixel as int),
    {
        let idx = match self.vis_from_pixel(pixel) {
            Some(idx) => idx,
            None => {
                return None;
            },
        };
        proof {
            self.lemma_wf(pixel as int);
            self.layout().lemma_start_fits(idx.0 as int);
            self.layout().lemma_start_fits(idx.0 + 1);
        }
        let border: Pixel = self.border() as Pixel;
        let first: Pixel = match self.first_pixel_from_vis(idx) {
            Some(p) => p,
            None => 0,
        };
        let next: Pixel = match self.first_pixel_from_vis(VisIdx(idx.0 + 1)) {
            Some(p) => p,
            None => self.total_pixel_length(),
        };
        let reach: Pixel = MOUSE_MOVE_EPSILON as Pixel;
        let before: Pixel = pixel - first;
        let after: Pixel = pixel - next;
        if before < reach && 2 * before + border < 2 * reach {
            Some(idx)
        } else if after < reach && -2 * reach < 2 * after + border && 2 * after + border < 2
            * reach {
            Some(VisIdx(idx.0 + 1))
        } else {
            None
        }
    }
}

} // verus!
