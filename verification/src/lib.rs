//! In-process tab registry for a desktop shell: tracks the set of embedded
//! rendering surfaces ("tabs"), which one is visible, their titles, and the
//! geometry handed to the presentation layer.

pub mod errors;
pub mod geometry;
pub mod laws;
pub mod registry;
pub mod tab_id;
pub mod urls;
