//! The measure of an axis on which every item has the same extent.

use vstd::prelude::*;
use crate::index::VisIdx;
use crate::layout::{AxisLayout, Extent, Pixel};
use crate::measure::{range_end, range_start, AxisMeasure};
use crate::remap::Remap;

verus! {

/// What a [`FixedAxisMeasure`] holds: the extent of every item, the border
/// between two items, and the number of items.
pub struct FixedAxisState {
    pub pixels_per_unit: Extent,
    pub border: Extent,
    pub len: usize,
}

impl FixedAxisState {
    /// The distance from the start of one item to the start of the next.
    pub open spec fn stride(self) -> int {
        self.pixels_per_unit + self.border
    }

    /// `len` items of the same extent.
    pub open spec fn layout(self) -> AxisLayout {
        AxisLayout {
            border: self.border,
            lengths: Seq::new(self.len as nat, |i: int| self.pixels_per_unit),
        }
    }

    /// The item at `pixel`: the whole number of strides that fit into
    /// `pixel`, where that is the position of an item.
    ///
    /// With a stride of zero every item is empty and starts at offset 0. No
    /// number of strides reaches any other offset, and offset 0 itself is
    /// answered with the first item.
    pub open spec fn item_at(self, pixel: int) -> Option<VisIdx> {
        if pixel < 0 {
            None
        } else if self.stride() == 0 {
            if pixel == 0 && self.len > 0 {
                Some(VisIdx(0))
            } else {
                None
            }
        } else if pixel / self.stride() < self.len {
            Some(VisIdx((pixel / self.stride()) as usize))
        } else {
            None
        }
    }

    /// Item `i` starts `i` strides from the origin.
    pub proof fn lemma_start(self, i: int)
        requires
            0 <= i <= self.len,
        ensures
            self.layout().start(i) == i * self.stride(),
        decreases i,
    {
        if i > 0 {
            self.lemma_start(i - 1);
            assert(i * self.stride() == (i - 1) * self.stride() + self.stride())
                by (nonlinear_arith);
        }
    }

    /// An item that is found starts at or before the pixel it was found at.
    pub proof fn lemma_item_at(self, pixel: int)
        ensures
            self.item_at(pixel) matches Some(v) ==> v.0 < self.len && self.layout().start(
                v.0 as int,
            ) <= pixel,
    {
        let s = self.stride();
        if pixel >= 0 && s > 0 && pixel / s < self.len {
            let q = pixel / s;
            assert(0 <= q && q * s <= pixel) by (nonlinear_arith)
                requires
                    q == pixel / s,
                    pixel >= 0,
                    s > 0,
            ;
            self.lemma_start(q);
        }
    }

    /// Uniform round trip: on an axis with a stride above zero, item `i`
    /// starts at `i * (pixels_per_unit + border)`, and the item found at
    /// that offset is `i`.
    pub proof fn law_round_trip(self, i: usize)
        requires
            i < self.len,
            self.stride() > 0,
        ensures
            self.layout().start(i as int) == i * (self.pixels_per_unit + self.border),
            self.item_at(self.layout().start(i as int)) == Some(VisIdx(i)),
    {
        let s = self.stride();
        self.lemma_start(i as int);
        assert(0 <= i * s && (i * s) / s == i) by (nonlinear_arith)
            requires
                s > 0,
                i >= 0,
        ;
    }

    /// Total length of a uniform axis: the number of items times the stride.
    pub proof fn law_total(self)
        ensures
            self.layout().total() == self.len * (self.pixels_per_unit + self.border),
    {
        self.lemma_start(self.len as int);
    }

    /// Inside the content of an axis with a stride above zero, the item at a
    /// pixel is the last one that starts at or before that pixel.
    pub proof fn law_item_at_is_last_start(self, pixel: int)
        requires
            self.stride() > 0,
            0 <= pixel < self.layout().total(),
        ensures
            self.item_at(pixel) == self.layout().item_at(pixel),
    {
        let s = self.stride();
        let q = pixel / s;
        self.lemma_start(self.len as int);
        assert(0 <= q && q * s <= pixel < (q + 1) * s) by (nonlinear_arith)
            requires
                q == pixel / s,
                pixel >= 0,
                s > 0,
        ;
        assert(q < self.len) by (nonlinear_arith)
            requires
                q * s <= pixel,
                pixel < self.len * s,
                s > 0,
                q >= 0,
        ;
        self.lemma_start(q);
        self.lemma_start(q + 1);
        self.layout().lemma_item_at_unique(pixel, VisIdx(q as usize));
    }
}

/// An axis of items that all have the same extent. Lookups are arithmetic;
/// nothing is stored per item, and no item can be resized.
#[derive(Debug, Clone, Copy)]
pub struct FixedAxisMeasure {
    pixels_per_unit: Extent,
    border: Extent,
    len: usize,
}

impl View for FixedAxisMeasure {
    type V = FixedAxisState;

    closed spec fn view(&self) -> FixedAxisState {
        FixedAxisState {
            pixels_per_unit: self.pixels_per_unit,
            border: self.border,
            len: self.len,
        }
    }
}

impl FixedAxisMeasure {
    /// An empty axis without borders whose items will be `pixels_per_unit` long.
    pub fn new(pixels_per_unit: Extent) -> (r: Self)
        ensures
            r@ == (FixedAxisState { pixels_per_unit, border: 0, len: 0 }),
    {
        FixedAxisMeasure { pixels_per_unit, border: 0, len: 0 }
    }

    fn full_pixels_per_unit(&self) -> (r: Pixel)
        ensures
            r == self@.stride(),
    {
        self.pixels_per_unit as Pixel + self.border as Pixel
    }
}

impl AxisMeasure for FixedAxisMeasure {
    open spec fn wf(&self) -> bool {
        true
    }

    open spec fn layout(&self) -> AxisLayout {
        self@.layout()
    }

    open spec fn item_at(&self, pixel: int) -> Option<VisIdx> {
        self@.item_at(pixel)
    }

    open spec fn resizable(&self, idx: VisIdx) -> bool {
        false
    }

    proof fn lemma_wf(&self, pixel: int) {
        self@.lemma_item_at(pixel);
    }

    fn border(&self) -> (r: Extent)
        ensures
            r == self@.border,
    {
        self.border
    }

    /// Takes the new border and length. The remap is not looked at: where
    /// all items are alike, their order does not change any offset.
    fn set_axis_properties(&mut self, border: Extent, len: usize, remap: &Remap)
        ensures
            final(self)@ == (FixedAxisState {
                pixels_per_unit: old(self)@.pixels_per_unit,
                border,
                len,
            }),
    {
        self.border = border;
        self.len = len;
    }

    fn total_pixel_length(&self) -> (r: Pixel)
        ensures
            r == self@.len * (self@.pixels_per_unit + self@.border),
    {
        let stride: Pixel = self.full_pixels_per_unit();
        proof {
            self@.law_total();
            assert(0 <= self.len * stride <= 0x2_0000_0000_0000_0000_0000_0000)
                by (nonlinear_arith)
                requires
                    0 <= self.len <= 0xffff_ffff_ffff_ffff,
                    0 <= stride <= 0x1_ffff_fffe,
            ;
        }
        (self.len as Pixel) * stride
    }

    fn vis_from_pixel(&self, pixel: Pixel) -> (r: Option<VisIdx>) {
        let stride: Pixel = self.full_pixels_per_unit();
        if pixel < 0 {
            None
        } else if stride == 0 {
            if pixel == 0 && self.len > 0 {
                Some(VisIdx(0))
            } else {
                None
            }
        } else {
            let index: Pixel = pixel / stride;
            if index < self.len as Pixel {
                Some(VisIdx(index as usize))
            } else {
                None
            }
        }
    }

    fn vis_range_from_pixels(&self, near: Pixel, far: Pixel) -> (r: (VisIdx, VisIdx)) {
        proof {
            self@.lemma_item_at(near as int);
            self@.lemma_item_at(far as int);
        }
        let start = match self.vis_from_pixel(near) {
            Some(v) => v,
            None => VisIdx(0),
        };
        let end = match self.vis_from_pixel(far) {
            Some(v) => v,
            None => VisIdx(self.len - 1),
        };
        (start, end)
    }

    fn first_pixel_from_vis(&self, idx: VisIdx) -> (r: Option<Pixel>)
        ensures
            r matches Some(p) ==> p == idx.0 * (self@.pixels_per_unit + self@.border),
    {
        if idx.0 < self.len {
            let stride: Pixel = self.full_pixels_per_unit();
            proof {
                self@.lemma_start(idx.0 as int);
                assert(0 <= idx.0 * stride <= 0x2_0000_0000_0000_0000_0000_0000)
                    by (nonlinear_arith)
                    requires
                        0 <= idx.0 <= 0xffff_ffff_ffff_ffff,
                        0 <= stride <= 0x1_ffff_fffe,
                ;
            }
            Some((idx.0 as Pixel) * stride)
        } else {
            None
        }
    }

    fn pixels_length_for_vis(&self, idx: VisIdx) -> (r: Option<Extent>)
        ensures
            r == (if idx.0 < self@.len {
                Some(self@.pixels_per_unit)
            } else {
                None
            }),
    {
        if idx.0 < self.len {
            Some(self.pixels_per_unit)
        } else {
            None
        }
    }

    /// Changes nothing and reports the extent that every item has.
    fn set_far_pixel_for_vis(&mut self, idx: VisIdx, pixel: Pixel) -> (r: Extent)
        ensures
            r == old(self)@.pixels_per_unit,
            final(self)@ == old(self)@,
    {
        self.pixels_per_unit
    }

    /// Changes nothing and reports the extent that every item has.
    fn set_pixel_length_for_vis(&mut self, idx: VisIdx, length: Extent) -> (r: Extent)
        ensures
            r == old(self)@.pixels_per_unit,
            final(self)@ == old(self)@,
    {
        self.pixels_per_unit
    }

    fn can_resize(&self, idx: VisIdx) -> (r: bool)
        ensures
            !r,
    {
        false
    }
}

} // verus!
