//! Export: turns a document into a flat graph of numbered objects. Ids are
//! handed out from the document's counter in the order the objects are
//! built, so each one is fresh and every reference names an object of the
//! graph.

use vstd::prelude::*;
use crate::content::{Operation, OpView, ResourceKey, ops_view};
use crate::document::{PdfDocument, PdfDocumentReference};
use crate::fonts::{DirectFontRef, IndirectFontRef};
use crate::geometry::Num;
use crate::layer::{PdfLayer, PdfPage, Resource, merge_layers, merged_ops, merged_resources};
use crate::metadata::{InfoDictionary, XmpStream, spec_time_stamp, spec_xmp_date, spec_text_string, is_generated_id};

verus! {

/// One optional-content group: the visibility switch of one layer.
#[derive(Clone, Debug)]
pub struct OcgEntry {
    pub id: u32,
    pub name: String,
}

/// One page object with the objects only it refers to.
#[derive(Clone, Debug)]
pub struct PageObject {
    pub id: u32,
    pub width: Num,
    pub height: Num,
    /// The resource dictionary's id; absent when the page has no resources.
    pub resources_id: Option<u32>,
    /// The union of the page's layer resources.
    pub resources: Vec<(ResourceKey, Resource)>,
    /// The merged content stream's id.
    pub contents_id: u32,
    pub contents: Vec<Operation>,
}

/// The assembled object graph of a document.
#[derive(Clone, Debug)]
pub struct ExportedDocument {
    /// The page tree root; its kids are the pages, in order.
    pub pages_id: u32,
    pub metadata_id: u32,
    pub info_id: u32,
    /// The usage dictionary every group refers to.
    pub usage_id: u32,
    /// The intent array every group refers to.
    pub intent_id: u32,
    /// All groups, page by page and layer by layer. The catalog lists them
    /// as the groups, their order, and the ones initially on.
    pub ocgs: Vec<OcgEntry>,
    /// The shared font dictionary; present when any font is registered.
    pub font_dict_id: Option<u32>,
    pub fonts: Vec<(IndirectFontRef, DirectFontRef)>,
    pub pages: Vec<PageObject>,
    pub catalog_id: u32,
    pub document_id: String,
    pub instance_id: String,
    pub info: InfoDictionary,
    pub xmp: XmpStream,
    /// The highest id in the graph.
    pub max_id: u32,
}

/// Every layer's name, page by page and layer by layer.
pub open spec fn layer_names(pages: Seq<PdfPage>) -> Seq<Seq<char>>
    decreases pages.len(),
{
    if pages.len() == 0 {
        Seq::empty()
    } else {
        layer_names(pages.drop_last()) + pages.last().layers@.map_values(|l: PdfLayer| l.name@)
    }
}

/// How many objects one page adds.
pub open spec fn page_object_budget() -> int {
    3
}

/// An upper bound on how many ids assembly hands out.
pub open spec fn export_budget(doc: PdfDocument) -> int {
    7 + layer_names(doc.pages@).len() + page_object_budget() * doc.pages@.len()
}

/// The ids of a page's objects, in the order they are handed out.
pub open spec fn page_ids(p: PageObject) -> Seq<int> {
    match p.resources_id {
        Some(r) => seq![r as int, p.contents_id as int, p.id as int],
        None => seq![p.contents_id as int, p.id as int],
    }
}

/// The ids of all page objects, in order.
pub open spec fn all_page_ids(pages: Seq<PageObject>) -> Seq<int>
    decreases pages.len(),
{
    if pages.len() == 0 {
        Seq::empty()
    } else {
        all_page_ids(pages.drop_last()) + page_ids(pages.last())
    }
}

/// Every id of the graph, in the order they were handed out.
pub open spec fn object_ids(r: ExportedDocument) -> Seq<int> {
    seq![r.pages_id as int, r.metadata_id as int, r.info_id as int, r.usage_id as int, r.intent_id as int]
        + r.ocgs@.map_values(|o: OcgEntry| o.id as int) + match r.font_dict_id {
        Some(f) => seq![f as int],
        None => Seq::empty(),
    } + all_page_ids(r.pages@) + seq![r.catalog_id as int]
}

pub open spec fn strictly_increasing(s: Seq<int>) -> bool {
    forall|i: int, j: int| 0 <= i < j < s.len() ==> s[i] < s[j]
}

/// Page `p` of the graph is page `page` of the document, its layers merged.
pub open spec fn page_assembled(p: PageObject, page: PdfPage, has_fonts: bool) -> bool {
    &&& p.width == page.width
    &&& p.height == page.height
    &&& ops_view(p.contents@) == merged_ops(page.layers@)
    &&& p.resources@ == merged_resources(page.layers@)
    &&& (p.resources_id is Some <==> (p.resources@.len() > 0 || has_fonts))
}

/// `r` is the graph assembled from `doc`.
pub open spec fn assembled(doc: PdfDocument, r: ExportedDocument) -> bool {
    &&& r.pages@.len() == doc.pages@.len()
    &&& forall|i: int| 0 <= i < r.pages@.len() ==> page_assembled(#[trigger] r.pages@[i], doc.pages@[i], doc.fonts.fonts@.len() > 0)
    &&& r.ocgs@.map_values(|o: OcgEntry| o.name@) == layer_names(doc.pages@)
    &&& (r.font_dict_id is Some <==> doc.fonts.fonts@.len() > 0)
    &&& r.fonts@ == doc.fonts.fonts@
    &&& strictly_increasing(object_ids(r))
    &&& object_ids(r)[0] == doc.max_id + 1
    &&& object_ids(r).last() == r.max_id
    &&& r.document_id == doc.document_id
    &&& match doc.instance_id {
        Some(id) => r.instance_id == id,
        None => is_generated_id(r.instance_id@),
    }
    &&& r.info.title == doc.metadata.document_title
    &&& r.xmp.document_title == doc.metadata.document_title
    &&& r.info.creation_date@ == spec_time_stamp(doc.metadata.creation_date)
    &&& r.xmp.create_date@ == spec_xmp_date(doc.metadata.creation_date)
    &&& r.info.mod_date@ == spec_time_stamp(doc.metadata.modification_date)
    &&& r.xmp.modification_date@ == spec_xmp_date(doc.metadata.modification_date)
    &&& r.info.gts_pdfx_version@ == doc.metadata.conformance.spec_identifier()@
    &&& r.xmp.pdf_x_version@ == doc.metadata.conformance.spec_identifier()@
    &&& r.info.title_bytes@ == spec_text_string(doc.metadata.document_title@)
    &&& r.info.trapped == doc.metadata.trapping
    &&& r.xmp.trapped == doc.metadata.trapping
}

proof fn lemma_push_increasing(s: Seq<int>, x: int)
    requires
        strictly_increasing(s),
        forall|i: int| 0 <= i < s.len() ==> #[trigger] s[i] < x,
    ensures
        strictly_increasing(s.push(x)),
{
    assert forall|i: int, j: int| 0 <= i < j < s.push(x).len() implies s.push(x)[i] < s.push(x)[j] by {
        if j < s.len() {
            assert(s.push(x)[i] == s[i]);
            assert(s.push(x)[j] == s[j]);
        } else {
            assert(s.push(x)[i] == s[i]);
        }
    }
}

/// Hands out the next id.
fn next_id(max_id: &mut u32, order: Ghost<Seq<int>>) -> (r: u32)
    requires
        *old(max_id) < u32::MAX,
        strictly_increasing(order@),
        forall|i: int| 0 <= i < order@.len() ==> #[trigger] order@[i] <= *old(max_id),
    ensures
        r == *old(max_id) + 1,
        *final(max_id) == r,
        strictly_increasing(order@.push(r as int)),
        forall|i: int| 0 <= i < order@.push(r as int).len() ==> #[trigger] order@.push(r as int)[i] <= r,
{
    *max_id = *max_id + 1;
    proof {
        lemma_push_increasing(order@, *max_id as int);
    }
    *max_id
}

proof fn lemma_layer_names_step(pages: Seq<PdfPage>, p: int)
    requires
        0 <= p < pages.len(),
    ensures
        layer_names(pages.take(p + 1)) == layer_names(pages.take(p)) + pages[p].layers@.map_values(
            |l: PdfLayer| l.name@,
        ),
{
    assert(pages.take(p + 1).drop_last() =~= pages.take(p));
}

proof fn lemma_layer_names_monotone(pages: Seq<PdfPage>, p: int, n: int)
    requires
        0 <= p <= n <= pages.len(),
    ensures
        layer_names(pages.take(p)).len() <= layer_names(pages.take(n)).len(),
    decreases n - p,
{
    if p < n {
        lemma_layer_names_monotone(pages, p, n - 1);
        lemma_layer_names_step(pages, n - 1);
    }
}

proof fn lemma_all_page_ids_push(pages: Seq<PageObject>, p: PageObject)
    ensures
        all_page_ids(pages.push(p)) == all_page_ids(pages) + page_ids(p),
{
    assert(pages.push(p).drop_last() =~= pages);
}

impl PdfDocumentReference {
    /// Assembles the document's object graph, consuming the document: the
    /// page tree root's id first, then the metadata, one group per layer
    /// (page by page, layer by layer), the shared font dictionary when any
    /// font is registered, each page with its merged content and its
    /// resources (left out when empty), and the catalog last. A missing
    /// instance id is generated.
    pub fn assemble(self) -> (r: ExportedDocument)
        requires
            self.document.wf(),
            self.document.max_id + export_budget(self.document) <= u32::MAX,
        ensures
            assembled(self.document, r),
    {
        let ghost doc = self.document;
        let PdfDocument { pages, fonts, document_id, instance_id, metadata, max_id, ids } = self.document;
        let mut max_id = max_id;
        let mut ids = ids;
        let ghost total = layer_names(doc.pages@).len();
        let ghost mut order: Seq<int> = Seq::empty();
        let pages_id = next_id(&mut max_id, Ghost(order));
        proof { order = order.push(pages_id as int); }
        let (xmp, info) = metadata.into_obj(&mut ids);
        let metadata_id = next_id(&mut max_id, Ghost(order));
        proof { order = order.push(metadata_id as int); }
        let info_id = next_id(&mut max_id, Ghost(order));
        proof { order = order.push(info_id as int); }
        let usage_id = next_id(&mut max_id, Ghost(order));
        proof { order = order.push(usage_id as int); }
        let intent_id = next_id(&mut max_id, Ghost(order));
        proof { order = order.push(intent_id as int); }
        let ghost head = order;
        proof {
            assert(head =~= seq![pages_id as int, metadata_id as int, info_id as int, usage_id as int, intent_id as int]);
            assert(doc.pages@.take(0) =~= Seq::<PdfPage>::empty());
            assert(doc.pages@.take(doc.pages@.len() as int) =~= doc.pages@);
        }

        let mut ocgs: Vec<OcgEntry> = Vec::new();
        let mut p: usize = 0;
        while p < pages.len()
            invariant
                pages@ == doc.pages@,
                p <= pages@.len(),
                ocgs@.map_values(|o: OcgEntry| o.name@) == layer_names(pages@.take(p as int)),
                order == head + ocgs@.map_values(|o: OcgEntry| o.id as int),
                strictly_increasing(order),
                forall|i: int| 0 <= i < order.len() ==> #[trigger] order[i] <= max_id,
                max_id == doc.max_id + 5 + ocgs@.len(),
                total == layer_names(doc.pages@).len(),
                doc.max_id + export_budget(doc) <= u32::MAX,
                pages@.take(pages@.len() as int) == pages@,
            decreases pages.len() - p,
        {
            proof {
                lemma_layer_names_step(pages@, p as int);
                lemma_layer_names_monotone(pages@, p as int + 1, pages@.len() as int);
            }
            let mut l: usize = 0;
            while l < pages[p].layers.len()
                invariant
                    pages@ == doc.pages@,
                    p < pages@.len(),
                    l <= pages@[p as int].layers@.len(),
                    ocgs@.map_values(|o: OcgEntry| o.name@) == layer_names(pages@.take(p as int))
                        + pages@[p as int].layers@.take(l as int).map_values(|x: PdfLayer| x.name@),
                    order == head + ocgs@.map_values(|o: OcgEntry| o.id as int),
                    strictly_increasing(order),
                    forall|i: int| 0 <= i < order.len() ==> #[trigger] order[i] <= max_id,
                    max_id == doc.max_id + 5 + ocgs@.len(),
                    layer_names(pages@.take(p as int + 1)).len() <= total,
                    layer_names(pages@.take(p as int + 1)) == layer_names(pages@.take(p as int))
                        + pages@[p as int].layers@.map_values(|x: PdfLayer| x.name@),
                    total == layer_names(doc.pages@).len(),
                    doc.max_id + export_budget(doc) <= u32::MAX,
                decreases pages[p as int].layers@.len() - l,
            {
                proof {
                    assert(ocgs@.map_values(|o: OcgEntry| o.name@).len() == ocgs@.len());
                    assert(ocgs@.len() == layer_names(pages@.take(p as int)).len() + l);
                    assert(export_budget(doc) >= 7 + total);
                }
                let id = next_id(&mut max_id, Ghost(order));
                let entry = OcgEntry { id, name: pages[p].layers[l].name.clone() };
                let ghost prev = ocgs@;
                ocgs.push(entry);
                proof {
                    order = order.push(id as int);
                    assert(ocgs@.map_values(|o: OcgEntry| o.id as int) =~= prev.map_values(|o: OcgEntry| o.id as int).push(id as int));
                    assert(ocgs@.map_values(|o: OcgEntry| o.name@) =~= prev.map_values(|o: OcgEntry| o.name@).push(entry.name@));
                    assert(pages@[p as int].layers@.take(l + 1) =~= pages@[p as int].layers@.take(l as int).push(pages@[p as int].layers@[l as int]));
                    assert(ocgs@.map_values(|o: OcgEntry| o.name@) =~= layer_names(pages@.take(p as int))
                        + pages@[p as int].layers@.take(l + 1).map_values(|x: PdfLayer| x.name@));
                }
                l = l + 1;
            }
            proof {
                assert(pages@[p as int].layers@.take(l as int) =~= pages@[p as int].layers@);
            }
            p = p + 1;
        }

        let has_fonts = fonts.fonts.len() > 0;
        let font_dict_id = if has_fonts {
            let f = next_id(&mut max_id, Ghost(order));
            proof { order = order.push(f as int); }
            Some(f)
        } else {
            None
        };
        let ghost before_pages = order;
        let ghost base = max_id;
        proof {
            assert(ocgs@.len() == total);
            assert(base <= doc.max_id + 6 + total);
        }

        let n = pages.len();
        let mut pages = pages;
        let mut page_objs: Vec<PageObject> = Vec::new();
        let mut k: usize = 0;
        while pages.len() > 0
            invariant
                n == doc.pages@.len(),
                k + pages@.len() == n,
                pages@ == doc.pages@.subrange(k as int, n as int),
                page_objs@.len() == k,
                forall|i: int| 0 <= i < k ==> page_assembled(#[trigger] page_objs@[i], doc.pages@[i], has_fonts),
                has_fonts == (doc.fonts.fonts@.len() > 0),
                (font_dict_id is Some) == has_fonts,
                order == before_pages + all_page_ids(page_objs@),
                strictly_increasing(order),
                forall|i: int| 0 <= i < order.len() ==> #[trigger] order[i] <= max_id,
                max_id <= base + 3 * k,
                base <= doc.max_id + 6 + total,
                doc.max_id + export_budget(doc) <= u32::MAX,
                total == layer_names(doc.pages@).len(),
            decreases pages.len(),
        {
            let page = pages.remove(0);
            proof {
                assert(page == doc.pages@[k as int]);
                assert(pages@ =~= doc.pages@.subrange(k + 1, n as int));
            }
            let (contents, resources) = merge_layers(page.layers);
            let resources_id = if resources.len() > 0 || has_fonts {
                let rid = next_id(&mut max_id, Ghost(order));
                proof { order = order.push(rid as int); }
                Some(rid)
            } else {
                None
            };
            let contents_id = next_id(&mut max_id, Ghost(order));
            proof { order = order.push(contents_id as int); }
            let id = next_id(&mut max_id, Ghost(order));
            proof { order = order.push(id as int); }
            let obj = PageObject {
                id,
                width: page.width,
                height: page.height,
                resources_id,
                resources,
                contents_id,
                contents,
            };
            let ghost prev = page_objs@;
            proof {
                lemma_all_page_ids_push(prev, obj);
                assert(order =~= before_pages + all_page_ids(prev.push(obj)));
            }
            page_objs.push(obj);
            k = k + 1;
        }
        let catalog_id = next_id(&mut max_id, Ghost(order));
        proof { order = order.push(catalog_id as int); }
        let instance_id = match instance_id {
            Some(i) => i,
            None => ids.random_character_string_32(),
        };
        let r = ExportedDocument {
            pages_id,
            metadata_id,
            info_id,
            usage_id,
            intent_id,
            ocgs,
            font_dict_id,
            fonts: fonts.fonts,
            pages: page_objs,
            catalog_id,
            document_id,
            instance_id,
            info,
            xmp,
            max_id,
        };
        proof {
            assert(object_ids(r) =~= order);
        }
        r
    }
}

/// The number of layers over all pages.
pub open spec fn total_layers(pages: Seq<PdfPage>) -> nat
    decreases pages.len(),
{
    if pages.len() == 0 {
        0
    } else {
        total_layers(pages.drop_last()) + pages.last().layers@.len()
    }
}

/// How many layers come before page `i`.
pub open spec fn layers_before(pages: Seq<PdfPage>, i: int) -> nat {
    total_layers(pages.take(i))
}

proof fn lemma_layer_names_len(pages: Seq<PdfPage>)
    ensures
        layer_names(pages).len() == total_layers(pages),
    decreases pages.len(),
{
    if pages.len() > 0 {
        lemma_layer_names_len(pages.drop_last());
    }
}

proof fn lemma_layer_names_prefix(pages: Seq<PdfPage>, n: int, m: int)
    requires
        0 <= n <= m <= pages.len(),
    ensures
        layer_names(pages.take(n)).len() <= layer_names(pages.take(m)).len(),
        forall|k: int| 0 <= k < layer_names(pages.take(n)).len() ==> #[trigger] layer_names(pages.take(m))[k]
            == layer_names(pages.take(n))[k],
    decreases m - n,
{
    if n < m {
        lemma_layer_names_prefix(pages, n, m - 1);
        lemma_layer_names_step(pages, m - 1);
    }
}

/// Assembly makes one page object per page, and one group per layer,
/// ordered page by page and, within a page, layer by layer.
pub proof fn lemma_assembled_pages_and_groups(doc: PdfDocument, r: ExportedDocument)
    requires
        assembled(doc, r),
    ensures
        r.pages@.len() == doc.pages@.len(),
        r.ocgs@.len() == total_layers(doc.pages@),
        forall|i: int, j: int|
            0 <= i < doc.pages@.len() && 0 <= j < doc.pages@[i].layers@.len() ==> r.ocgs@[layers_before(doc.pages@, i) + j].name@
                == (#[trigger] doc.pages@[i].layers@[j]).name@,
{
    let pages = doc.pages@;
    lemma_layer_names_len(pages);
    assert(r.ocgs@.map_values(|o: OcgEntry| o.name@).len() == r.ocgs@.len());
    assert(pages.take(pages.len() as int) =~= pages);
    assert forall|i: int, j: int|
        0 <= i < pages.len() && 0 <= j < pages[i].layers@.len() implies r.ocgs@[layers_before(pages, i) + j].name@
            == (#[trigger] pages[i].layers@[j]).name@ by {
        lemma_layer_names_step(pages, i);
        lemma_layer_names_len(pages.take(i));
        lemma_layer_names_prefix(pages, i + 1, pages.len() as int);
        let k = layers_before(pages, i) + j;
        assert(layer_names(pages.take(i + 1))[k] == pages[i].layers@[j].name@);
        assert(layer_names(pages)[k] == pages[i].layers@[j].name@);
        assert(r.ocgs@.map_values(|o: OcgEntry| o.name@)[k] == r.ocgs@[k].name@);
    }
}

} // verus!
