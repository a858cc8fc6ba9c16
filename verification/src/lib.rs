//! A handwritten-note document engine: the note model and its mutation rules,
//! the layout of the file store, colour parsing, and the rendering of a note
//! into PDF drawing operations.
//!
//! Every length and coordinate is a whole number of thousandths of a page
//! unit, so that all geometry is exact integer arithmetic.

pub mod clock;
pub mod collection;
pub mod color;
pub mod error;
pub mod ident;
pub mod note;
pub mod pdf;
pub mod storage;
pub mod text;
