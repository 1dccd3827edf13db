//! The document: pages, fonts and metadata, and their assembly into a flat
//! graph of numbered objects that reference each other.

use vstd::prelude::*;
use crate::content::{Operation, OpView, ResourceKey, ops_view};
use crate::fonts::{BuiltinFont, DirectFontRef, ExternalFont, Font, FontList, IndirectFontRef, has_font, is_first_font};
use crate::geometry::Num;
use crate::indices::{PdfLayerIndex, PdfPageIndex};
use crate::layer::{PdfLayer, PdfPage, Resource, merge_layers, merged_ops, merged_resources};
use crate::metadata::{DateTime, PdfConformance, PdfMetadata, XmpMetadata, is_generated_id};
use crate::utils::{IdGenerator, id_chars};
use crate::svg;
use crate::svg::{Path, Tree, path_ops, path_resources, extends, added_ops, node_ops, node_res_ok, added_res};
use crate::content::net_depth;

verus! {

/// The errors a caller can see.
#[derive(Copy, Clone, Debug, PartialEq, Eq, Structural)]
pub enum Error {
    /// A font stream could not be read or parsed.
    FontParse,
    /// The document needs more object ids than the id space holds.
    ObjectIdsExhausted,
    /// Writing the finished document failed.
    Io,
}

/// A document under construction.
#[derive(Debug)]
pub struct PdfDocument {
    pub pages: Vec<PdfPage>,
    pub fonts: FontList,
    /// The first half of the trailer's identifier.
    pub document_id: String,
    /// The second half; generated on assembly when absent.
    pub instance_id: Option<String>,
    pub metadata: PdfMetadata,
    /// The highest object id handed out so far.
    pub max_id: u32,
    /// Where generated identifiers come from.
    pub ids: IdGenerator,
}

/// The handle callers build a document through. It owns the document, so
/// one writer at a time is enforced by borrowing. It cannot be cloned, so
/// assembling it, which consumes it, happens once.
#[derive(Debug)]
pub struct PdfDocumentReference {
    pub document: PdfDocument,
}

impl PdfDocument {
    /// Each page knows its position, each layer its position on its page,
    /// and every font's object id has been handed out.
    pub open spec fn wf(self) -> bool {
        &&& forall|i: int| 0 <= i < self.pages@.len() ==> (#[trigger] self.pages@[i]).index == i
        &&& forall|i: int| 0 <= i < self.pages@.len() ==> (#[trigger] self.pages@[i]).wf()
        &&& forall|i: int| 0 <= i < self.fonts.fonts@.len() ==> (#[trigger] self.fonts.fonts@[i]).1.inner_obj <= self.max_id
        &&& self.metadata.creation_date.wf()
        &&& self.metadata.modification_date.wf()
        &&& self.metadata.metadata_date.wf()
    }

    /// A document with one page of the given size, holding one empty layer.
    pub fn new(
        document_title: String,
        initial_page_width: Num,
        initial_page_height: Num,
        initial_layer_name: String,
        now: DateTime,
        id_seed: u64,
    ) -> (r: (PdfDocumentReference, PdfPageIndex, PdfLayerIndex))
        requires
            now.wf(),
        ensures
            r.0.document.wf(),
            r.0.document.pages@.len() == 1,
            r.0.document.pages@[0].width == initial_page_width,
            r.0.document.pages@[0].height == initial_page_height,
            r.0.document.pages@[0].layers@.len() == 1,
            r.0.document.pages@[0].layers@[0].name == initial_layer_name,
            r.0.document.pages@[0].layers@[0].operations@.len() == 0,
            r.0.document.pages@[0].layers@[0].resources@.len() == 0,
            r.0.document.pages@[0].layers@[0].index == 0,
            r.0.document.pages@[0].index == 0,
            r.0.document.metadata.document_title == document_title,
            r.0.document.fonts.fonts@.len() == 0,
            r.0.document.max_id == 0,
            r.0.document.document_id@ == id_chars(id_seed, 0),
            r.0.document.instance_id is None,
            r.1 == PdfPageIndex(0),
            r.2 == PdfLayerIndex(0),
    {
        let mut doc = PdfDocument::empty(document_title, now, id_seed);
        let (page, layer_index) = PdfPage::new(initial_page_width, initial_page_height, initial_layer_name, 0);
        doc.document.pages.push(page);
        (doc, PdfPageIndex(0), layer_index)
    }

    /// A document without pages. Its identifiers are drawn from a generator
    /// seeded with `id_seed`; a fresh seed gives fresh identifiers.
    pub fn empty(document_title: String, now: DateTime, id_seed: u64) -> (r: PdfDocumentReference)
        requires
            now.wf(),
        ensures
            r.document.wf(),
            r.document.pages@.len() == 0,
            r.document.metadata.document_title == document_title,
            r.document.metadata.creation_date == now,
            r.document.metadata.modification_date == now,
            r.document.metadata.metadata_date == now,
            r.document.metadata.conformance == PdfConformance::X3_2002_PDF_1_3,
            r.document.metadata.document_version == 1,
            !r.document.metadata.trapping,
            r.document.fonts.fonts@.len() == 0,
            r.document.max_id == 0,
            r.document.document_id@ == id_chars(id_seed, 0),
            r.document.instance_id is None,
    {
        let mut ids = IdGenerator::with_seed(id_seed);
        let document_id = ids.random_character_string_32();
        let metadata = PdfMetadata::new(document_title, 1, false, PdfConformance::X3_2002_PDF_1_3, now, &mut ids);
        PdfDocumentReference {
            document: PdfDocument {
                pages: Vec::new(),
                fonts: FontList::new(),
                document_id,
                instance_id: None,
                metadata,
                max_id: 0,
                ids,
            },
        }
    }
}

impl PdfDocumentReference {
    /// Changes the title, which the info dictionary and the XMP stream share.
    pub fn with_title(self, new_title: String) -> (r: Self)
        ensures
            r.document == (PdfDocument {
                metadata: PdfMetadata { document_title: new_title, ..self.document.metadata },
                ..self.document
            }),
    {
        let mut s = self;
        s.document.metadata.document_title = new_title;
        s
    }

    /// Sets whether the document is trapped.
    pub fn with_trapping(self, trapping: bool) -> (r: Self)
        ensures
            r.document == (PdfDocument {
                metadata: PdfMetadata { trapping, ..self.document.metadata },
                ..self.document
            }),
    {
        let mut s = self;
        s.document.metadata.trapping = trapping;
        s
    }

    /// Sets the first half of the trailer's identifier.
    pub fn with_document_id(self, id: String) -> (r: Self)
        ensures
            r.document == (PdfDocument { document_id: id, ..self.document }),
    {
        let mut s = self;
        s.document.document_id = id;
        s
    }

    /// Sets the second half of the trailer's identifier.
    pub fn with_instance_id(self, id: String) -> (r: Self)
        ensures
            r.document == (PdfDocument { instance_id: Some(id), ..self.document }),
    {
        let mut s = self;
        s.document.instance_id = Some(id);
        s
    }

    /// Sets the XMP stream's document id.
    pub fn with_xmp_document_id(self, id: String) -> (r: Self)
        ensures
            r.document == (PdfDocument {
                metadata: PdfMetadata {
                    xmp_metadata: XmpMetadata { document_id: id, ..self.document.metadata.xmp_metadata },
                    ..self.document.metadata
                },
                ..self.document
            }),
    {
        let mut s = self;
        s.document.metadata.xmp_metadata.document_id = id;
        s
    }

    /// Sets the XMP stream's instance id.
    pub fn with_xmp_instance_id(self, id: String) -> (r: Self)
        ensures
            r.document == (PdfDocument {
                metadata: PdfMetadata {
                    xmp_metadata: XmpMetadata { instance_id: Some(id), ..self.document.metadata.xmp_metadata },
                    ..self.document.metadata
                },
                ..self.document
            }),
    {
        let mut s = self;
        s.document.metadata.xmp_metadata.instance_id = Some(id);
        s
    }

    /// Sets the document's version.
    pub fn with_document_version(self, version: u32) -> (r: Self)
        ensures
            r.document == (PdfDocument {
                metadata: PdfMetadata { document_version: version, ..self.document.metadata },
                ..self.document
            }),
    {
        let mut s = self;
        s.document.metadata.document_version = version;
        s
    }

    /// Sets the conformance the document claims.
    pub fn with_conformance(self, conformance: PdfConformance) -> (r: Self)
        ensures
            r.document == (PdfDocument {
                metadata: PdfMetadata { conformance, ..self.document.metadata },
                ..self.document
            }),
    {
        let mut s = self;
        s.document.metadata.conformance = conformance;
        s
    }

    /// Sets the creation date.
    pub fn with_creation_date(self, date: DateTime) -> (r: Self)
        requires
            date.wf(),
        ensures
            r.document == (PdfDocument {
                metadata: PdfMetadata { creation_date: date, ..self.document.metadata },
                ..self.document
            }),
    {
        let mut s = self;
        s.document.metadata.creation_date = date;
        s
    }

    /// Sets the modification date.
    pub fn with_mod_date(self, date: DateTime) -> (r: Self)
        requires
            date.wf(),
        ensures
            r.document == (PdfDocument {
                metadata: PdfMetadata { modification_date: date, ..self.document.metadata },
                ..self.document
            }),
    {
        let mut s = self;
        s.document.metadata.modification_date = date;
        s
    }

    /// Sets the metadata date.
    pub fn with_metadata_date(self, date: DateTime) -> (r: Self)
        requires
            date.wf(),
        ensures
            r.document == (PdfDocument {
                metadata: PdfMetadata { metadata_date: date, ..self.document.metadata },
                ..self.document
            }),
    {
        let mut s = self;
        s.document.metadata.metadata_date = date;
        s
    }
}

/// `new_doc` is `old_doc` with only layer `l` of page `p` changed, to
/// `layer`.
pub open spec fn only_layer_changed(old_doc: PdfDocument, new_doc: PdfDocument, p: int, l: int, layer: PdfLayer) -> bool {
    &&& new_doc.pages@.len() == old_doc.pages@.len()
    &&& forall|i: int| 0 <= i < old_doc.pages@.len() && i != p ==> #[trigger] new_doc.pages@[i] == old_doc.pages@[i]
    &&& new_doc.pages@[p].index == old_doc.pages@[p].index
    &&& new_doc.pages@[p].width == old_doc.pages@[p].width
    &&& new_doc.pages@[p].height == old_doc.pages@[p].height
    &&& new_doc.pages@[p].layers@ == old_doc.pages@[p].layers@.update(l, layer)
    &&& new_doc.fonts == old_doc.fonts
    &&& new_doc.document_id == old_doc.document_id
    &&& new_doc.instance_id == old_doc.instance_id
    &&& new_doc.metadata == old_doc.metadata
    &&& new_doc.max_id == old_doc.max_id
    &&& new_doc.ids == old_doc.ids
}

impl PdfDocumentReference {
    /// Adds a page of the given size with one empty layer, after the last.
    pub fn add_page(&mut self, width: Num, height: Num, initial_layer_name: String) -> (r: (PdfPageIndex, PdfLayerIndex))
        requires
            old(self).document.wf(),
        ensures
            final(self).document.wf(),
            r.0.0 == old(self).document.pages@.len(),
            r.1 == PdfLayerIndex(0),
            final(self).document.pages@.len() == old(self).document.pages@.len() + 1,
            final(self).document.pages@.drop_last() == old(self).document.pages@,
            final(self).document.pages@.last().width == width,
            final(self).document.pages@.last().height == height,
            final(self).document.pages@.last().layers@.len() == 1,
            final(self).document.pages@.last().layers@[0].name == initial_layer_name,
            final(self).document.pages@.last().layers@[0].operations@.len() == 0,
            final(self).document.pages@.last().layers@[0].resources@.len() == 0,
            final(self).document.pages@.last().layers@[0].index == 0,
            final(self).document.pages@.last().index == old(self).document.pages@.len(),
            final(self).document.fonts == old(self).document.fonts,
            final(self).document.max_id == old(self).document.max_id,
    {
        let i = self.document.pages.len();
        let (page, layer_index) = PdfPage::new(width, height, initial_layer_name, i);
        self.document.pages.push(page);
        proof {
            assert(final(self).document.pages@.drop_last() =~= old(self).document.pages@);
        }
        (PdfPageIndex(i), layer_index)
    }

    /// Adds an empty layer on top of a page.
    pub fn add_layer(&mut self, page: PdfPageIndex, name: String) -> (r: PdfLayerIndex)
        requires
            old(self).document.wf(),
            page.0 < old(self).document.pages@.len(),
        ensures
            final(self).document.wf(),
            r.0 == old(self).document.pages@[page.0 as int].layers@.len(),
            final(self).document.pages@.len() == old(self).document.pages@.len(),
            forall|i: int| 0 <= i < old(self).document.pages@.len() && i != page.0 ==> #[trigger] final(self).document.pages@[i] == old(self).document.pages@[i],
            final(self).document.pages@[page.0 as int].layers@.drop_last() == old(self).document.pages@[page.0 as int].layers@,
            final(self).document.pages@[page.0 as int].layers@.last().name == name,
            final(self).document.pages@[page.0 as int].layers@.last().operations@.len() == 0,
            final(self).document.pages@[page.0 as int].layers@.last().resources@.len() == 0,
            final(self).document.pages@[page.0 as int].layers@.last().index == r.0,
            final(self).document.fonts == old(self).document.fonts,
            final(self).document.max_id == old(self).document.max_id,
    {
        let mut p = self.document.pages.remove(page.0);
        let r = p.add_layer(name);
        self.document.pages.insert(page.0, p);
        proof {
            assert forall|i: int| 0 <= i < old(self).document.pages@.len() && i != page.0 implies #[trigger] final(self).document.pages@[i] == old(self).document.pages@[i] by {
                if i < page.0 {
                } else {
                }
            }
        }
        r
    }

    /// Reserves the next object id.
    fn new_object_id(&mut self) -> (r: u32)
        requires
            old(self).document.max_id < u32::MAX,
        ensures
            r == old(self).document.max_id + 1,
            final(self).document == (PdfDocument { max_id: r, ..old(self).document }),
    {
        self.document.max_id = self.document.max_id + 1;
        self.document.max_id
    }

    /// Registers a font under `name` unless one is registered under it
    /// already; either way returns the reference by name.
    fn add_font(&mut self, name: String, font: Font) -> (r: Result<IndirectFontRef, Error>)
        requires
            old(self).document.wf(),
            old(self).document.max_id < u32::MAX,
        ensures
            final(self).document.wf(),
            r matches Ok(f) && f.name == name,
            has_font(old(self).document.fonts.fonts@, name@) ==> final(self).document == old(self).document,
            !has_font(old(self).document.fonts.fonts@, name@) ==> {
                &&& final(self).document.max_id == old(self).document.max_id + 1
                &&& final(self).document.fonts.fonts@.len() == old(self).document.fonts.fonts@.len() + 1
                &&& final(self).document.fonts.fonts@.drop_last() == old(self).document.fonts.fonts@
                &&& final(self).document.fonts.fonts@.last().0.name == name
                &&& final(self).document.fonts.fonts@.last().1.inner_obj == final(self).document.max_id
                &&& final(self).document.pages == old(self).document.pages
            },
    {
        let font_ref = IndirectFontRef { name: name.clone() };
        match self.document.fonts.find(&font_ref) {
            Some(_) => Ok(font_ref),
            None => {
                let id = self.new_object_id();
                let direct = DirectFontRef { inner_obj: id, data: font };
                self.document.fonts.add_font(IndirectFontRef { name: name.clone() }, direct);
                proof {
                    assert(final(self).document.fonts.fonts@.drop_last() =~= old(self).document.fonts.fonts@);
                }
                Ok(font_ref)
            },
        }
    }

    /// Registers a font read from a font file, under its face name.
    pub fn add_external_font(&mut self, font: ExternalFont) -> (r: Result<IndirectFontRef, Error>)
        requires
            old(self).document.wf(),
            old(self).document.max_id < u32::MAX,
        ensures
            final(self).document.wf(),
            r matches Ok(f) && f.name == font.face_name,
            has_font(old(self).document.fonts.fonts@, font.face_name@) ==> final(self).document == old(self).document,
            !has_font(old(self).document.fonts.fonts@, font.face_name@) ==> {
                &&& final(self).document.max_id == old(self).document.max_id + 1
                &&& final(self).document.fonts.fonts@.len() == old(self).document.fonts.fonts@.len() + 1
                &&& final(self).document.fonts.fonts@.drop_last() == old(self).document.fonts.fonts@
                &&& final(self).document.fonts.fonts@.last().0.name == font.face_name
                &&& final(self).document.fonts.fonts@.last().1.inner_obj == final(self).document.max_id
                &&& final(self).document.pages == old(self).document.pages
            },
    {
        let name = font.face_name.clone();
        self.add_font(name, Font::ExternalFont(font))
    }

    /// Registers one of the fonts every reader provides, under its
    /// PostScript name.
    pub fn add_builtin_font(&mut self, builtin_font: BuiltinFont) -> (r: Result<IndirectFontRef, Error>)
        requires
            old(self).document.wf(),
            old(self).document.max_id < u32::MAX,
        ensures
            final(self).document.wf(),
            r matches Ok(f) && f.name@ == builtin_font.spec_name()@,
            has_font(old(self).document.fonts.fonts@, builtin_font.spec_name()@) ==> final(self).document == old(self).document,
            !has_font(old(self).document.fonts.fonts@, builtin_font.spec_name()@) ==> {
                &&& final(self).document.max_id == old(self).document.max_id + 1
                &&& final(self).document.fonts.fonts@.len() == old(self).document.fonts.fonts@.len() + 1
                &&& final(self).document.fonts.fonts@.drop_last() == old(self).document.fonts.fonts@
                &&& final(self).document.fonts.fonts@.last().0.name@ == builtin_font.spec_name()@
                &&& final(self).document.fonts.fonts@.last().1.inner_obj == final(self).document.max_id
                &&& final(self).document.pages == old(self).document.pages
            },
    {
        let name = builtin_font.name().to_owned();
        self.add_font(name, Font::BuiltinFont(builtin_font))
    }

    /// The object id reserved for a registered font.
    pub fn get_font(&self, font: &IndirectFontRef) -> (r: Option<u32>)
        ensures
            r matches Some(id) ==> exists|i: int| is_first_font(self.document.fonts.fonts@, font.name@, i) && self.document.fonts.fonts@[i].1.inner_obj == id,
            r is None <==> !has_font(self.document.fonts.fonts@, font.name@),
    {
        self.document.fonts.get_font_id(font)
    }

    /// A page of the document.
    pub fn get_page(&self, page: PdfPageIndex) -> (r: &PdfPage)
        requires
            page.0 < self.document.pages@.len(),
        ensures
            *r == self.document.pages@[page.0 as int],
    {
        &self.document.pages[page.0]
    }

    /// Reports settings that break the claimed conformance; no check is
    /// made yet.
    pub fn check_for_errors(&self) -> (r: Result<(), Error>)
        ensures
            r is Ok,
    {
        Ok(())
    }

    /// Adjusts the document to a conformance; no repair is made yet.
    pub fn repair_errors(&self, _conformance: PdfConformance) -> (r: Result<(), Error>)
        ensures
            r is Ok,
    {
        Ok(())
    }
}

impl PdfDocumentReference {
    /// Takes a layer out of the document, leaving an empty one in its place.
    fn take_layer(&mut self, page: PdfPageIndex, layer: PdfLayerIndex) -> (r: PdfLayer)
        requires
            page.0 < old(self).document.pages@.len(),
            layer.0 < old(self).document.pages@[page.0 as int].layers@.len(),
        ensures
            r == old(self).document.pages@[page.0 as int].layers@[layer.0 as int],
            final(self).document.pages@.len() == old(self).document.pages@.len(),
            forall|i: int| 0 <= i < old(self).document.pages@.len() && i != page.0 ==> #[trigger] final(self).document.pages@[i] == old(self).document.pages@[i],
            final(self).document.pages@[page.0 as int] == (PdfPage {
                layers: final(self).document.pages@[page.0 as int].layers,
                ..old(self).document.pages@[page.0 as int]
            }),
            final(self).document.pages@[page.0 as int].layers@.len() == old(self).document.pages@[page.0 as int].layers@.len(),
            forall|j: int| 0 <= j < old(self).document.pages@[page.0 as int].layers@.len() && j != layer.0 ==>
                #[trigger] final(self).document.pages@[page.0 as int].layers@[j] == old(self).document.pages@[page.0 as int].layers@[j],
            final(self).document == (PdfDocument { pages: final(self).document.pages, ..old(self).document }),
    {
        let mut p = self.document.pages.remove(page.0);
        let ghost p0 = p;
        let l = p.layers.remove(layer.0);
        let empty = PdfLayer::new(String::new(), layer.0);
        p.layers.insert(layer.0, empty);
        self.document.pages.insert(page.0, p);
        proof {
            assert forall|j: int| 0 <= j < p0.layers@.len() && j != layer.0 implies #[trigger] p.layers@[j] == p0.layers@[j] by {
                if j < layer.0 {
                } else {
                }
            }
            assert forall|i: int| 0 <= i < old(self).document.pages@.len() && i != page.0 implies #[trigger] final(self).document.pages@[i] == old(self).document.pages@[i] by {
                if i < page.0 {
                } else {
                }
            }
        }
        l
    }

    /// Puts a layer back where `take_layer` took it.
    fn put_layer(&mut self, page: PdfPageIndex, layer: PdfLayerIndex, l: PdfLayer)
        requires
            page.0 < old(self).document.pages@.len(),
            layer.0 < old(self).document.pages@[page.0 as int].layers@.len(),
        ensures
            final(self).document.pages@.len() == old(self).document.pages@.len(),
            forall|i: int| 0 <= i < old(self).document.pages@.len() && i != page.0 ==> #[trigger] final(self).document.pages@[i] == old(self).document.pages@[i],
            final(self).document.pages@[page.0 as int] == (PdfPage {
                layers: final(self).document.pages@[page.0 as int].layers,
                ..old(self).document.pages@[page.0 as int]
            }),
            final(self).document.pages@[page.0 as int].layers@ == old(self).document.pages@[page.0 as int].layers@.update(layer.0 as int, l),
            final(self).document == (PdfDocument { pages: final(self).document.pages, ..old(self).document }),
    {
        let mut p = self.document.pages.remove(page.0);
        let _ = p.layers.remove(layer.0);
        p.layers.insert(layer.0, l);
        self.document.pages.insert(page.0, p);
        proof {
            assert(final(self).document.pages@[page.0 as int].layers@ =~= old(self).document.pages@[page.0 as int].layers@.update(layer.0 as int, l));
            assert forall|i: int| 0 <= i < old(self).document.pages@.len() && i != page.0 implies #[trigger] final(self).document.pages@[i] == old(self).document.pages@[i] by {
                if i < page.0 {
                } else {
                }
            }
        }
    }

    /// Draws a scene graph into a layer of the document.
    pub fn draw_svg(&mut self, page: PdfPageIndex, layer: PdfLayerIndex, tree: &Tree)
        requires
            old(self).document.wf(),
            page.0 < old(self).document.pages@.len(),
            layer.0 < old(self).document.pages@[page.0 as int].layers@.len(),
        ensures
            final(self).document.wf(),
            exists|l: PdfLayer| {
                &&& only_layer_changed(old(self).document, final(self).document, page.0 as int, layer.0 as int, l)
                &&& extends(old(self).document.pages@[page.0 as int].layers@[layer.0 as int], l)
                &&& added_ops(old(self).document.pages@[page.0 as int].layers@[layer.0 as int], l) == node_ops(
                    tree.root,
                    tree.defs@,
                    old(self).document.pages@[page.0 as int].layers@[layer.0 as int].index,
                    old(self).document.pages@[page.0 as int].layers@[layer.0 as int].resources@.len(),
                )
                &&& node_res_ok(tree.root, tree.defs@, added_res(old(self).document.pages@[page.0 as int].layers@[layer.0 as int], l))
                &&& net_depth(added_ops(old(self).document.pages@[page.0 as int].layers@[layer.0 as int], l)) == 0
            },
    {
        let ghost before = *self;
        let mut l = self.take_layer(page, layer);
        svg::draw_svg(&mut l, tree);
        let ghost drawn = l;
        self.put_layer(page, layer, l);
        proof {
            let pg = final(self).document.pages@[page.0 as int];
            assert(pg.layers@ =~= before.document.pages@[page.0 as int].layers@.update(layer.0 as int, drawn));
            assert(only_layer_changed(before.document, final(self).document, page.0 as int, layer.0 as int, drawn));
            assert forall|j: int| 0 <= j < pg.layers@.len() implies (#[trigger] pg.layers@[j]).index == j by {
                if j != layer.0 {
                    assert(pg.layers@[j] == before.document.pages@[page.0 as int].layers@[j]);
                }
            }
            assert forall|i: int| 0 <= i < final(self).document.pages@.len() implies (#[trigger] final(self).document.pages@[i]).wf() by {
                if i != page.0 {
                    assert(final(self).document.pages@[i] == before.document.pages@[i]);
                }
            }
        }
    }

    /// Draws one path into a layer of the document.
    pub fn draw_path(&mut self, page: PdfPageIndex, layer: PdfLayerIndex, path: &Path, tree: &Tree)
        requires
            old(self).document.wf(),
            page.0 < old(self).document.pages@.len(),
            layer.0 < old(self).document.pages@[page.0 as int].layers@.len(),
        ensures
            final(self).document.wf(),
            exists|l: PdfLayer| {
                &&& only_layer_changed(old(self).document, final(self).document, page.0 as int, layer.0 as int, l)
                &&& ops_view(l.operations@) == ops_view(old(self).document.pages@[page.0 as int].layers@[layer.0 as int].operations@)
                    + path_ops(*path, tree.defs@, old(self).document.pages@[page.0 as int].layers@[layer.0 as int].next_key())
                &&& path_resources(*path, tree.defs@, old(self).document.pages@[page.0 as int].layers@[layer.0 as int], l)
            },
    {
        let ghost before = *self;
        let mut l = self.take_layer(page, layer);
        svg::draw_path(&mut l, path, tree);
        let ghost drawn = l;
        self.put_layer(page, layer, l);
        proof {
            let pg = final(self).document.pages@[page.0 as int];
            assert(pg.layers@ =~= before.document.pages@[page.0 as int].layers@.update(layer.0 as int, drawn));
            assert(only_layer_changed(before.document, final(self).document, page.0 as int, layer.0 as int, drawn));
            assert forall|j: int| 0 <= j < pg.layers@.len() implies (#[trigger] pg.layers@[j]).index == j by {
                if j != layer.0 {
                    assert(pg.layers@[j] == before.document.pages@[page.0 as int].layers@[j]);
                }
            }
            assert forall|i: int| 0 <= i < final(self).document.pages@.len() implies (#[trigger] final(self).document.pages@[i]).wf() by {
                if i != page.0 {
                    assert(final(self).document.pages@[i] == before.document.pages@[i]);
                }
            }
        }
    }
}

} // verus!
