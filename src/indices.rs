//! Indices handed out by the `add_*` functions of a document.

use vstd::prelude::*;

verus! {

/// Index of a page (0-based).
#[derive(Copy, Clone, Debug, PartialEq, Eq, Structural)]
pub struct PdfPageIndex(pub usize);

/// Index of a layer on a page.
#[derive(Copy, Clone, Debug, PartialEq, Eq, Structural)]
pub struct PdfLayerIndex(pub usize);

/// Index of arbitrary content data.
#[derive(Copy, Clone, Debug, PartialEq, Eq, Structural)]
pub struct PdfContentIndex(pub usize);

/// Index of a font.
#[derive(Copy, Clone, Debug, PartialEq, Eq, Structural)]
pub struct FontIndex(pub PdfContentIndex);

/// Index of an embedded SVG.
#[derive(Copy, Clone, Debug, PartialEq, Eq, Structural)]
pub struct SvgIndex(pub PdfContentIndex);

impl From<FontIndex> for PdfContentIndex {
    fn from(i: FontIndex) -> (r: PdfContentIndex)
        ensures
            r == i.0,
    {
        i.0
    }
}

impl vstd::std_specs::convert::FromSpecImpl<FontIndex> for PdfContentIndex {
    open spec fn obeys_from_spec() -> bool {
        true
    }

    open spec fn from_spec(i: FontIndex) -> PdfContentIndex {
        i.0
    }
}

impl From<SvgIndex> for PdfContentIndex {
    fn from(i: SvgIndex) -> (r: PdfContentIndex)
        ensures
            r == i.0,
    {
        i.0
    }
}

impl vstd::std_specs::convert::FromSpecImpl<SvgIndex> for PdfContentIndex {
    open spec fn obeys_from_spec() -> bool {
        true
    }

    open spec fn from_spec(i: SvgIndex) -> PdfContentIndex {
        i.0
    }
}

} // verus!
