//! Assembles a page/layer document model into a cross-referenced object graph,
//! and renders vector scene graphs into layer content streams.

pub mod indices;
pub mod geometry;
pub mod content;
pub mod shading;
pub mod layer;
pub mod svg;
pub mod utils;
pub mod metadata;
pub mod fonts;
pub mod document;
pub mod assembly;
