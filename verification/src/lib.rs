//! Pixel layout of table rows and columns along one scrollable axis.
//!
//! A measure answers which item lies at a pixel offset and which pixels an
//! item covers, for items whose visible order may differ from the order in
//! which they are stored. Offsets and extents are whole pixels.

pub mod axis;
pub mod fixed;
pub mod index;
pub mod layout;
pub mod measure;
pub mod remap;
pub mod stored;

pub use crate::axis::{AxisMeasureAdjustment, Point, Rect, ResizeCursor, Size, TableAxis};
pub use crate::fixed::{FixedAxisMeasure, FixedAxisState};
pub use crate::index::{LogIdx, VisIdx, VisIdxRange};
pub use crate::layout::{AxisLayout, Extent, Pixel};
pub use crate::measure::AxisMeasure;
pub use crate::remap::{Remap, RemapDetails};
pub use crate::stored::{StoredAxisMeasure, StoredAxisState};
