//! The measure of an axis on which every logical item has an extent of its
//! own, shown in the order that a remap gives.

use vstd::prelude::*;
use crate::index::{LogIdx, VisIdx};
use crate::layout::{AxisLayout, Extent, Pixel};
use crate::measure::{extent_to, range_end, range_start, AxisMeasure};
use crate::remap::{Remap, RemapDetails};

verus! {

/// `lengths` cut or grown to `len` items: what is kept keeps its place, and
/// each new slot holds `fill`.
pub open spec fn resized(lengths: Seq<Extent>, len: nat, fill: Extent) -> Seq<Extent> {
    Seq::new(
        len,
        |i: int|
            if i < lengths.len() {
                lengths[i]
            } else {
                fill
            },
    )
}

/// What a [`StoredAxisMeasure`] holds. Everything else that it answers
/// follows from these four.
pub struct StoredAxisState {
    /// The logical position of every visible slot, or `None` where the
    /// visible order is the logical one.
    pub remap: Option<Seq<LogIdx>>,
    /// The extent of every logical item, by logical position.
    pub log_lengths: Seq<Extent>,
    /// The extent that a new logical item gets.
    pub default_length: Extent,
    /// The gap between two items.
    pub border: Extent,
}

impl StoredAxisState {
    /// Whether every logical position that the remap names has an extent.
    pub open spec fn fits(self) -> bool {
        match self.remap {
            None => true,
            Some(m) => forall|i: int|
                0 <= i < m.len() ==> (#[trigger] m[i]).0 < self.log_lengths.len(),
        }
    }

    /// The extents of the visible items, in visible order: the logical
    /// extents themselves, or those that the remap picks.
    pub open spec fn vis_lengths(self) -> Seq<Extent> {
        match self.remap {
            None => self.log_lengths,
            Some(m) => Seq::new(m.len(), |i: int| self.log_lengths[m[i].0 as int]),
        }
    }

    /// The layout of the visible items.
    pub open spec fn layout(self) -> AxisLayout {
        AxisLayout { border: self.border, lengths: self.vis_lengths() }
    }

    /// The logical item whose extent a resize of visible slot `idx` changes:
    /// the one that the remap shows there, if it has an extent.
    pub open spec fn resize_target(self, idx: VisIdx) -> Option<LogIdx> {
        match self.remap {
            None => if idx.0 < self.log_lengths.len() {
                Some(LogIdx(idx.0))
            } else {
                None
            },
            Some(m) => if idx.0 < m.len() && m[idx.0 as int].0 < self.log_lengths.len() {
                Some(m[idx.0 as int])
            } else {
                None
            },
        }
    }

    /// The state after visible slot `idx` was given the extent `length`.
    pub open spec fn with_length(self, idx: VisIdx, length: Extent) -> StoredAxisState {
        match self.resize_target(idx) {
            Some(target) => StoredAxisState {
                log_lengths: self.log_lengths.update(target.0 as int, length),
                ..self
            },
            None => self,
        }
    }

    /// The extent that a resize to `length` reports: `length` itself, or 0
    /// where the slot names no logical item.
    pub open spec fn applied(self, idx: VisIdx, length: Extent) -> Extent {
        if self.resize_target(idx) is Some {
            length
        } else {
            0
        }
    }

    /// The extent with which visible slot `idx` ends at `pixel`. A slot
    /// that does not exist is taken to start at offset 0.
    pub open spec fn far_length(self, idx: VisIdx, pixel: int) -> Extent {
        if idx.0 < self.layout().count() {
            extent_to(self.layout().start(idx.0 as int), pixel)
        } else {
            extent_to(0, pixel)
        }
    }

    /// The state after the axis was set up anew: the logical extents cut or
    /// grown to `len`, new ones with the default extent.
    pub open spec fn reconfigured(
        self,
        border: Extent,
        len: nat,
        remap: Option<Seq<LogIdx>>,
    ) -> StoredAxisState {
        StoredAxisState {
            remap,
            log_lengths: resized(self.log_lengths, len, self.default_length),
            default_length: self.default_length,
            border,
        }
    }

    /// Growth and shrinkage: setting the axis up for `len` logical items
    /// leaves `len` extents; those of the items that stay are untouched,
    /// and each new item has the default extent.
    pub proof fn law_reconfigured(
        self,
        border: Extent,
        len: nat,
        remap: Option<Seq<LogIdx>>,
        i: int,
    )
        requires
            0 <= i < len,
        ensures
            self.reconfigured(border, len, remap).log_lengths.len() == len,
            i < self.log_lengths.len() ==> self.reconfigured(border, len, remap).log_lengths[i]
                == self.log_lengths[i],
            i >= self.log_lengths.len() ==> self.reconfigured(border, len, remap).log_lengths[i]
                == self.default_length,
    {
    }

    /// A resize keeps the number of visible items, and the state it leaves
    /// names no logical position without an extent.
    pub proof fn lemma_with_length(self, idx: VisIdx, length: Extent)
        requires
            self.fits(),
        ensures
            self.with_length(idx, length).fits(),
            self.with_length(idx, length).layout().count() == self.layout().count(),
            self.with_length(idx, length).layout().border == self.border,
    {
    }
}

/// Whether `entries` is the table that finds, for the first `upto` items
/// of `layout`, the item by its start: one entry for each start that
/// occurs, in ascending order of the starts, each with the last item that
/// starts there.
spec fn is_reverse_table(entries: Seq<(Pixel, VisIdx)>, layout: AxisLayout, upto: int) -> bool {
    &&& entries.len() <= upto
    &&& upto > 0 ==> entries.len() > 0
    &&& forall|a: int|
        0 <= a < entries.len() ==> (#[trigger] entries[a]).1.0 < upto && entries[a].0
            == layout.start(entries[a].1.0 as int)
    &&& forall|a: int, b: int|
        0 <= a < b < entries.len() ==> (#[trigger] entries[a]).0 < (#[trigger] entries[b]).0
    &&& forall|a: int, b: int|
        0 <= a && b == a + 1 && b < entries.len() ==> (#[trigger] entries[b]).0 == layout.start(
            (#[trigger] entries[a]).1.0 + 1,
        )
    &&& entries.len() > 0 ==> entries[0].0 == 0 && entries[entries.len() - 1].1.0 == upto - 1
}

/// An axis whose items each have an extent of their own.
///
/// The extents are kept by logical position. The extents in visible order,
/// the start of every visible item, the table that finds an item by its
/// start, and the total length are derived from them, and are rebuilt
/// whenever an extent, the border or the remap changes.
#[derive(Debug)]
pub struct StoredAxisMeasure {
    remap: Remap,
    log_pix_lengths: Vec<Extent>,
    vis_pix_lengths: Vec<Extent>,
    first_pixels: Vec<Pixel>,
    pixels_to_vis: Vec<(Pixel, VisIdx)>,
    default_pixels: Extent,
    border: Extent,
    total_pixel_length: Pixel,
}

impl View for StoredAxisMeasure {
    type V = StoredAxisState;

    closed spec fn view(&self) -> StoredAxisState {
        StoredAxisState {
            remap: self.remap.mapping(),
            log_lengths: self.log_pix_lengths@,
            default_length: self.default_pixels,
            border: self.border,
        }
    }
}

impl StoredAxisMeasure {
    /// Remap projection: under an explicit mapping there are as many
    /// visible items as the mapping has entries, and visible item `i` has
    /// the extent of the logical item `mapping[i]`.
    pub proof fn law_remap_projection(&self, mapping: Seq<LogIdx>, i: int)
        requires
            self.wf(),
            self@.remap == Some(mapping),
            0 <= i < mapping.len(),
        ensures
            self.layout().count() == mapping.len(),
            mapping[i].0 < self@.log_lengths.len(),
            self.layout().lengths[i] == self@.log_lengths[mapping[i].0 as int],
    {
    }

    /// A visible item that was resized has the extent it was given, and
    /// every logical item but the one it shows keeps its extent.
    pub proof fn law_resize_read_back(&self, idx: VisIdx, length: Extent, other: int)
        requires
            self.wf(),
            idx.0 < self.layout().count(),
            0 <= other < self@.log_lengths.len(),
        ensures
            self@.resize_target(idx) is Some,
            self@.with_length(idx, length).layout().lengths[idx.0 as int] == length,
            other != self@.resize_target(idx).unwrap().0 ==> self@.with_length(
                idx,
                length,
            ).log_lengths[other] == self@.log_lengths[other],
    {
    }

    /// An empty axis without borders, on which new items will be
    /// `default_pixels` long.
    pub fn new(default_pixels: Extent) -> (r: Self)
        ensures
            r.wf(),
            r@ == (StoredAxisState {
                remap: None,
                log_lengths: Seq::empty(),
                default_length: default_pixels,
                border: 0,
            }),
    {
        let r = StoredAxisMeasure {
            remap: Remap::Pristine,
            log_pix_lengths: Vec::new(),
            vis_pix_lengths: Vec::new(),
            first_pixels: Vec::new(),
            pixels_to_vis: Vec::new(),
            default_pixels,
            border: 0,
            total_pixel_length: 0,
        };
        assert(r@.log_lengths =~= Seq::empty());
        r
    }

    /// The extents in visible order: those of the logical items as they
    /// stand, or picked through the explicit mapping.
    fn project(&self) -> (vis: Vec<Extent>)
        requires
            self@.fits(),
        ensures
            vis@ == self@.vis_lengths(),
    {
        let mut vis: Vec<Extent> = Vec::new();
        match &self.remap {
            Remap::Selected(RemapDetails::Full(vis_to_log)) => {
                let mut i: usize = 0;
                while i < vis_to_log.len()
                    invariant
                        i <= vis_to_log.len(),
                        self@.fits(),
                        self@.remap == Some(vis_to_log@),
                        vis@ == self@.vis_lengths().take(i as int),
                    decreases vis_to_log.len() - i,
                {
                    let log_idx: LogIdx = vis_to_log[i];
                    assert(self@.remap.unwrap()[i as int].0 < self@.log_lengths.len());
                    vis.push(self.log_pix_lengths[log_idx.0]);
                    i += 1;
                    assert(vis@ =~= self@.vis_lengths().take(i as int));
                }
                assert(self@.vis_lengths().take(i as int) =~= self@.vis_lengths());
            },
            Remap::Pristine => {
                vis.extend_from_slice(self.log_pix_lengths.as_slice());
                assert(vis@ =~= self@.vis_lengths());
            },
        }
        vis
    }

    /// Derives anew, from the logical extents, the border and the remap,
    /// everything that the lookups read.
    fn build_maps(&mut self)
        requires
            old(self)@.fits(),
        ensures
            final(self).wf(),
            final(self)@ == old(self)@,
    {
        let vis: Vec<Extent> = self.project();
        let ghost layout = self@.layout();
        let border: Pixel = self.border as Pixel;
        let mut first_pixels: Vec<Pixel> = Vec::new();
        let mut pixels_to_vis: Vec<(Pixel, VisIdx)> = Vec::new();
        let mut cur: Pixel = 0;
        let mut idx: usize = 0;
        while idx < vis.len()
            invariant
                idx <= vis.len(),
                vis@ == layout.lengths,
                border == layout.border,
                cur == layout.start(idx as int),
                first_pixels@.len() == idx,
                forall|i: int| 0 <= i < idx ==> #[trigger] first_pixels@[i] == layout.start(i),
                is_reverse_table(pixels_to_vis@, layout, idx as int),
            decreases vis.len() - idx,
        {
            proof {
                layout.lemma_start_fits(idx as int);
                layout.lemma_start_fits(idx + 1);
                if idx > 0 {
                    layout.lemma_start_monotonic(idx as int - 1, idx as int);
                }
            }
            first_pixels.push(cur);
            let held: usize = pixels_to_vis.len();
            if held > 0 && pixels_to_vis[held - 1].0 == cur {
                pixels_to_vis.set(held - 1, (cur, VisIdx(idx)));
            } else {
                pixels_to_vis.push((cur, VisIdx(idx)));
            }
            cur = cur + (vis[idx] as Pixel + border);
            idx += 1;
        }
        self.vis_pix_lengths = vis;
        self.first_pixels = first_pixels;
        self.pixels_to_vis = pixels_to_vis;
        self.total_pixel_length = cur;
    }
}

/// A copy of the table that finds an item by its start.
fn copy_table(table: &Vec<(Pixel, VisIdx)>) -> (copy: Vec<(Pixel, VisIdx)>)
    ensures
        copy@ == table@,
{
    let mut copy: Vec<(Pixel, VisIdx)> = Vec::new();
    let mut i: usize = 0;
    while i < table.len()
        invariant
            i <= table.len(),
            copy@ == table@.take(i as int),
        decreases table.len() - i,
    {
        copy.push(table[i]);
        i += 1;
        assert(copy@ =~= table@.take(i as int));
    }
    assert(table@.take(i as int) =~= table@);
    copy
}

impl Clone for StoredAxisMeasure {
    fn clone(&self) -> (r: Self)
        ensures
            r@ == self@,
            self.wf() ==> r.wf(),
    {
        let r = StoredAxisMeasure {
            remap: self.remap.clone(),
            log_pix_lengths: self.log_pix_lengths.clone(),
            vis_pix_lengths: self.vis_pix_lengths.clone(),
            first_pixels: self.first_pixels.clone(),
            pixels_to_vis: copy_table(&self.pixels_to_vis),
            default_pixels: self.default_pixels,
            border: self.border,
            total_pixel_length: self.total_pixel_length,
        };
        assert(r.log_pix_lengths@ =~= self.log_pix_lengths@);
        assert(r.vis_pix_lengths@ =~= self.vis_pix_lengths@);
        assert(r.first_pixels@ =~= self.first_pixels@);
        r
    }
}

impl AxisMeasure for StoredAxisMeasure {
    /// What was derived agrees with what is stored.
    closed spec fn wf(&self) -> bool {
        let layout = self@.layout();
        &&& self@.fits()
        &&& layout.countable()
        &&& self.vis_pix_lengths@ == self@.vis_lengths()
        &&& self.first_pixels@.len() == layout.count()
        &&& forall|i: int|
            0 <= i < self.first_pixels@.len() ==> #[trigger] self.first_pixels@[i] == layout.start(i)
        &&& is_reverse_table(self.pixels_to_vis@, layout, layout.count() as int)
        &&& self.total_pixel_length == layout.total()
    }

    open spec fn layout(&self) -> AxisLayout {
        self@.layout()
    }

    /// The last item that starts at or before `pixel`. An offset past the
    /// end of the axis is answered with the last item.
    open spec fn item_at(&self, pixel: int) -> Option<VisIdx> {
        self@.layout().item_at(pixel)
    }

    open spec fn resizable(&self, idx: VisIdx) -> bool {
        true
    }

    proof fn lemma_wf(&self, pixel: int) {
        self@.layout().lemma_last_at_or_before(pixel, self@.layout().count() as int);
    }

    fn border(&self) -> (r: Extent)
        ensures
            r == self@.border,
    {
        self.border
    }

    /// Cuts or grows the logical extents to `len`, new ones with the
    /// default extent, and takes the new border and remap.
    fn set_axis_properties(&mut self, border: Extent, len: usize, remap: &Remap)
        ensures
            final(self)@ == old(self)@.reconfigured(border, len as nat, remap.mapping()),
    {
        self.border = border;
        self.remap = remap.clone();
        let old_len: usize = self.log_pix_lengths.len();
        if old_len > len {
            self.log_pix_lengths.truncate(len);
        } else if old_len < len {
            self.log_pix_lengths.resize(len, self.default_pixels);
        }
        assert(self.log_pix_lengths@ =~= resized(
            old(self).log_pix_lengths@,
            len as nat,
            self.default_pixels,
        ));
        self.build_maps();
    }

    fn total_pixel_length(&self) -> (r: Pixel) {
        self.total_pixel_length
    }

    fn vis_from_pixel(&self, pixel: Pixel) -> (r: Option<VisIdx>)
        ensures
            r is None <==> (self@.layout().count() == 0 || pixel < 0),
            r matches Some(v) ==> {
                &&& v.0 < self@.layout().count()
                &&& self@.layout().start(v.0 as int) <= pixel
                &&& forall|j: int| v.0 < j < self@.layout().count() ==> pixel < self@.layout().start(j)
            },
    {
        let ghost layout = self@.layout();
        proof {
            layout.lemma_last_at_or_before(pixel as int, layout.count() as int);
        }
        let held: usize = self.pixels_to_vis.len();
        if held == 0 || pixel < 0 {
            return None;
        }
        let mut lo: usize = 0;
        let mut hi: usize = held;
        while hi - lo > 1
            invariant
                0 <= lo < hi <= held,
                held == self.pixels_to_vis@.len(),
                self.pixels_to_vis@[lo as int].0 <= pixel,
                hi < held ==> pixel < self.pixels_to_vis@[hi as int].0,
            decreases hi - lo,
        {
            let mid: usize = lo + (hi - lo) / 2;
            if self.pixels_to_vis[mid].0 <= pixel {
                lo = mid;
            } else {
                hi = mid;
            }
        }
        let found: VisIdx = self.pixels_to_vis[lo].1;
        proof {
            let entries = self.pixels_to_vis@;
            assert(entries[lo as int].1 == found);
            if lo + 1 < held {
                assert(entries[lo + 1].0 == layout.start(found.0 + 1));
            }
            layout.lemma_item_at_unique(pixel as int, found);
        }
        Some(found)
    }

    fn vis_range_from_pixels(&self, near: Pixel, far: Pixel) -> (r: (VisIdx, VisIdx)) {
        let start = match self.vis_from_pixel(near) {
            Some(v) => v,
            None => VisIdx(0),
        };
        let end = match self.vis_from_pixel(far) {
            Some(v) => v,
            None => VisIdx(self.vis_pix_lengths.len() - 1),
        };
        (start, end)
    }

    fn first_pixel_from_vis(&self, idx: VisIdx) -> (r: Option<Pixel>) {
        if idx.0 < self.first_pixels.len() {
            Some(self.first_pixels[idx.0])
        } else {
            None
        }
    }

    fn pixels_length_for_vis(&self, idx: VisIdx) -> (r: Option<Extent>) {
        if idx.0 < self.vis_pix_lengths.len() {
            Some(self.vis_pix_lengths[idx.0])
        } else {
            None
        }
    }

    /// Gives the item in visible slot `idx` the extent with which it ends
    /// at `pixel`: the distance from its start, not below zero. Reports that
    /// extent, or 0, with nothing changed, where the slot names no logical
    /// item.
    fn set_far_pixel_for_vis(&mut self, idx: VisIdx, pixel: Pixel) -> (r: Extent)
        ensures
            r == old(self)@.applied(idx, old(self)@.far_length(idx, pixel as int)),
            final(self)@ == old(self)@.with_length(idx, old(self)@.far_length(idx, pixel as int)),
    {
        let first: Pixel = match self.first_pixel_from_vis(idx) {
            Some(p) => p,
            None => 0,
        };
        proof {
            if idx.0 < self@.layout().count() {
                self@.layout().lemma_start_fits(idx.0 as int);
            }
        }
        let length: Extent = if pixel <= first {
            0
        } else if pixel - first >= Extent::MAX as Pixel {
            Extent::MAX
        } else {
            (pixel - first) as Extent
        };
        self.set_pixel_length_for_vis(idx, length)
    }

    /// Gives the item in visible slot `idx` the extent `length` and reports
    /// it. Where the slot names no logical item, nothing changes and 0 is
    /// reported.
    fn set_pixel_length_for_vis(&mut self, idx: VisIdx, length: Extent) -> (r: Extent)
        ensures
            r == old(self)@.applied(idx, length),
            final(self)@ == old(self)@.with_length(idx, length),
    {
        if let Some(log_idx) = self.remap.get_log_idx(idx) {
            if log_idx.0 < self.log_pix_lengths.len() {
                proof {
                    self@.lemma_with_length(idx, length);
                }
                self.log_pix_lengths.set(log_idx.0, length);
                self.build_maps();
                return length;
            }
        }
        0
    }

    fn can_resize(&self, idx: VisIdx) -> (r: bool)
        ensures
            r,
    {
        true
    }
}

} // verus!
