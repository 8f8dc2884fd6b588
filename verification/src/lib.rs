//! A drag-and-drop reordering engine for items ("panels") arranged in a fixed
//! set of ordered columns, plus a few plain telephony API data models.
//!
//! The engine is independent of any rendering technology: it consumes element
//! geometry and pointer/touch coordinates and produces ordering mutations. A
//! view layer feeds it element rectangles and input events through
//! [`context::DragReorderContext`] and reads back the per-column panel order,
//! the dragged panel and the hover target.

pub mod context;
pub mod geometry;
pub mod hover;
pub mod laws;
pub mod models;
pub mod nearest;
pub mod splice;
