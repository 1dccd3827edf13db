use printpdf::assembly::ExportedDocument;
use printpdf::content::{OpKind, Operation};
use printpdf::document::{PdfDocument, PdfDocumentReference};
use printpdf::fonts::{BuiltinFont, ExternalFont, IndirectFontRef};
use printpdf::geometry::{Color, Num, Transform};
use printpdf::indices::{PdfLayerIndex, PdfPageIndex};
use printpdf::metadata::{DateTime, PdfConformance};
use printpdf::svg::{Fill, LineCap, Node, Paint, Path, PathSegment, Stroke, Tree};

fn n(v: i64) -> Num {
    Num(v * 1_000_000)
}

fn date() -> DateTime {
    DateTime::new(2017, 5, 5, 15, 2, 24).unwrap()
}

fn count(ops: &[Operation], kind: OpKind) -> usize {
    ops.iter().filter(|o| o.kind == kind).count()
}

fn object_ids(r: &ExportedDocument) -> Vec<u32> {
    let mut ids = vec![r.pages_id, r.metadata_id, r.info_id, r.usage_id, r.intent_id];
    ids.extend(r.ocgs.iter().map(|o| o.id));
    ids.extend(r.font_dict_id);
    for p in &r.pages {
        ids.extend(p.resources_id);
        ids.push(p.contents_id);
        ids.push(p.id);
    }
    ids.push(r.catalog_id);
    ids
}

fn empty_tree() -> Tree {
    Tree { root: Node::Other, defs: Vec::new() }
}

#[test]
fn square_outline_end_to_end() {
    let (mut doc, page1, layer1) = PdfDocument::new("PDF_Document_title".to_string(), n(500), n(500), "Layer 1".to_string(), date(), 7);
    let outline = Path {
        fill: None,
        stroke: Some(Stroke {
            paint: Paint::Color(Color { red: 0, green: 64, blue: 255 }),
            dasharray: None,
            dashoffset: Num(0),
            width: n(5),
            linecap: LineCap::Butt,
        }),
        transform: Transform::identity(),
        data: vec![
            PathSegment::MoveTo { x: n(200), y: n(200) },
            PathSegment::LineTo { x: n(300), y: n(200) },
            PathSegment::LineTo { x: n(300), y: n(300) },
            PathSegment::LineTo { x: n(200), y: n(300) },
        ],
    };
    doc.draw_path(page1, layer1, &outline, &empty_tree());
    let r = doc.assemble();
    assert_eq!(r.pages.len(), 1);
    let page = &r.pages[0];
    assert_eq!(page.width, n(500));
    assert_eq!(page.height, n(500));
    let ops = &page.contents;
    assert_eq!(count(ops, OpKind::Transform), 1);
    let cm = ops.iter().find(|o| o.kind == OpKind::Transform).unwrap();
    let identity = Transform::identity();
    let expected = [identity.a, identity.b, identity.c, identity.d, identity.e, identity.f];
    for (o, e) in cm.operands.iter().zip(expected.iter()) {
        match o {
            printpdf::content::Operand::Real(v) => assert_eq!(v, e),
            _ => panic!("cm takes numbers"),
        }
    }
    assert_eq!(count(ops, OpKind::MoveTo), 1);
    assert_eq!(count(ops, OpKind::LineTo), 3);
    assert_eq!(count(ops, OpKind::StrokeOpen), 1);
    assert_eq!(count(ops, OpKind::Fill), 0);
    assert_eq!(count(ops, OpKind::FillStrokeClose), 0);
    assert_eq!(r.ocgs.len(), 1);
    assert_eq!(r.ocgs[0].name, "Layer 1");
}

#[test]
fn pages_and_groups_follow_page_and_layer_order() {
    let (mut doc, p0, _) = PdfDocument::new("t".to_string(), n(100), n(200), "a".to_string(), date(), 7);
    doc.add_layer(p0, "b".to_string());
    let (p1, l1) = doc.add_page(n(300), n(400), "c".to_string());
    assert_eq!(p1, PdfPageIndex(1));
    assert_eq!(l1, PdfLayerIndex(0));
    doc.add_layer(p1, "d".to_string());
    let (p2, _) = doc.add_page(n(1), n(1), "e".to_string());
    assert_eq!(p2, PdfPageIndex(2));
    let r = doc.assemble();
    assert_eq!(r.pages.len(), 3);
    let names: Vec<&str> = r.ocgs.iter().map(|o| o.name.as_str()).collect();
    assert_eq!(names, vec!["a", "b", "c", "d", "e"]);
    assert_eq!(r.pages[1].width, n(300));
    assert_eq!(r.pages[1].height, n(400));
    assert!(r.pages.iter().all(|p| p.resources_id.is_none()));
    assert!(r.font_dict_id.is_none());
}

#[test]
fn object_ids_are_fresh_and_increasing() {
    let (mut doc, p0, l0) = PdfDocument::new("t".to_string(), n(10), n(10), "a".to_string(), date(), 7);
    doc.add_builtin_font(BuiltinFont::Helvetica).unwrap();
    doc.add_page(n(10), n(10), "b".to_string());
    let path = Path {
        fill: Some(Fill { paint: Paint::Color(Color { red: 1, green: 2, blue: 3 }), opacity: Num(500_000) }),
        stroke: None,
        transform: Transform::identity(),
        data: vec![PathSegment::MoveTo { x: n(0), y: n(0) }, PathSegment::ClosePath],
    };
    doc.draw_path(p0, l0, &path, &empty_tree());
    let r = doc.assemble();
    let ids = object_ids(&r);
    assert_eq!(ids[0], 2);
    assert!(ids.windows(2).all(|w| w[0] < w[1]));
    assert_eq!(*ids.last().unwrap(), r.max_id);
    assert!(r.font_dict_id.is_some());
    assert_eq!(r.fonts.len(), 1);
    assert_eq!(r.fonts[0].1.inner_obj, 1);
    assert!(r.pages.iter().all(|p| p.resources_id.is_some()));
    assert_eq!(r.pages[0].resources.len(), 1);
    assert!(r.pages[1].resources.is_empty());
}

#[test]
fn layers_merge_in_layer_order() {
    let (mut doc, p0, l0) = PdfDocument::new("t".to_string(), n(10), n(10), "a".to_string(), date(), 7);
    let l1 = doc.add_layer(p0, "b".to_string());
    let unpainted = |x: i64| Path {
        fill: None,
        stroke: None,
        transform: Transform::identity(),
        data: vec![PathSegment::MoveTo { x: n(x), y: n(0) }],
    };
    doc.draw_path(p0, l1, &unpainted(2), &empty_tree());
    doc.draw_path(p0, l0, &unpainted(1), &empty_tree());
    let r = doc.assemble();
    let moves: Vec<Num> = r.pages[0]
        .contents
        .iter()
        .filter(|o| o.kind == OpKind::MoveTo)
        .map(|o| match &o.operands[0] {
            printpdf::content::Operand::Real(v) => *v,
            _ => panic!("coordinate"),
        })
        .collect();
    assert_eq!(moves, vec![n(1), n(2)]);
}

#[test]
fn explicit_instance_id_is_kept_and_missing_one_generated() {
    let doc = PdfDocument::empty("t".to_string(), date(), 7).with_instance_id("INSTANCE".to_string());
    let r = doc.assemble();
    assert_eq!(r.instance_id, "INSTANCE");
    assert_eq!(r.document_id.len(), 32);
    let r2 = PdfDocument::empty("t".to_string(), date(), 7).assemble();
    assert_eq!(r2.instance_id.len(), 32);
    assert!(r2.instance_id.chars().all(|c| ('A'..='J').contains(&c)));
    assert!(r2.pages.is_empty());
    assert!(r2.ocgs.is_empty());
}

#[test]
fn metadata_forms_agree_on_title_and_dates() {
    let created = DateTime::new(2018, 9, 19, 10, 5, 5).unwrap();
    let modified = DateTime::new(2019, 1, 2, 3, 4, 5).unwrap();
    let doc = PdfDocument::empty("first".to_string(), date(), 7)
        .with_title("Second".to_string())
        .with_creation_date(created)
        .with_mod_date(modified)
        .with_trapping(true)
        .with_conformance(PdfConformance::X1A_2001_PDF_1_3)
        .with_document_version(4);
    let r = doc.assemble();
    assert_eq!(r.info.title, "Second");
    assert_eq!(r.xmp.document_title, "Second");
    assert_eq!(r.info.creation_date, "D:20180919100505+00'00'");
    assert_eq!(r.xmp.create_date, "D:2018-09-19T10:05:05+00'00'");
    assert_eq!(r.info.mod_date, "D:20190102030405+00'00'");
    assert_eq!(r.xmp.modification_date, "D:2019-01-02T03:04:05+00'00'");
    assert!(r.info.trapped);
    assert!(r.xmp.trapped);
    assert_eq!(r.info.gts_pdfx_version, "PDF/X-1a:2001");
    assert_eq!(r.xmp.document_version, 1);
}

#[test]
fn identifiers_can_be_set() {
    let doc = PdfDocument::empty("t".to_string(), date(), 7)
        .with_document_id("DOC".to_string())
        .with_xmp_document_id("XMPDOC".to_string())
        .with_xmp_instance_id("XMPINST".to_string());
    let r = doc.assemble();
    assert_eq!(r.document_id, "DOC");
    assert_eq!(r.xmp.document_id, "XMPDOC");
    assert_eq!(r.xmp.instance_id, "XMPINST");
    assert_eq!(r.xmp.rendition_class, "");
}

#[test]
fn fonts_are_registered_once_per_name() {
    let mut doc: PdfDocumentReference = PdfDocument::empty("t".to_string(), date(), 7);
    let a = doc.add_builtin_font(BuiltinFont::Courier).unwrap();
    let b = doc.add_builtin_font(BuiltinFont::Courier).unwrap();
    assert_eq!(a.name, "Courier");
    assert_eq!(b.name, "Courier");
    let c = doc
        .add_external_font(ExternalFont { face_name: "Roboto".to_string(), font_bytes: vec![0, 1, 0, 0] })
        .unwrap();
    assert_eq!(c.name, "Roboto");
    assert_eq!(doc.document.fonts.fonts.len(), 2);
    assert_eq!(doc.get_font(&IndirectFontRef { name: "Courier".to_string() }), Some(1));
    assert_eq!(doc.get_font(&IndirectFontRef { name: "Roboto".to_string() }), Some(2));
    assert_eq!(doc.get_font(&IndirectFontRef { name: "Symbol".to_string() }), None);
    assert!(doc.check_for_errors().is_ok());
    assert!(doc.repair_errors(PdfConformance::X3_2002_PDF_1_3).is_ok());
}

#[test]
fn pages_keep_their_positions() {
    let (mut doc, _, _) = PdfDocument::new("t".to_string(), n(1), n(2), "a".to_string(), date(), 7);
    doc.add_page(n(3), n(4), "b".to_string());
    assert_eq!(doc.get_page(PdfPageIndex(1)).index, 1);
    assert_eq!(doc.get_page(PdfPageIndex(1)).width, n(3));
    assert_eq!(doc.get_page(PdfPageIndex(0)).layers[0].name, "a");
}

#[test]
fn different_seeds_give_different_document_ids() {
    let a = PdfDocument::empty("t".to_string(), date(), 1);
    let b = PdfDocument::empty("t".to_string(), date(), 2);
    assert_ne!(a.document.document_id, b.document.document_id);
    assert_eq!(a.document.document_id.len(), 32);
}

#[test]
fn both_metadata_forms_carry_the_conformance_identifier() {
    let r = PdfDocument::empty("t".to_string(), date(), 7)
        .with_conformance(PdfConformance::X3_2003_PDF_1_4)
        .assemble();
    assert_eq!(r.info.gts_pdfx_version, "PDF/X-3:2003");
    assert_eq!(r.xmp.pdf_x_version, "PDF/X-3:2003");
    assert!(!r.info.trapped);
    assert!(!r.xmp.trapped);
}
