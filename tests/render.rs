use printpdf::content::{OpKind, Operand, Operation, ResourceKey};
use printpdf::geometry::{Color, Num, Transform};
use printpdf::layer::{PdfLayer, Resource};
use printpdf::shading::{GradientStop, LinearGradient};
use printpdf::svg::{
    draw_path, draw_svg, paint_op, Definition, DefinitionKind, Fill, LineCap, Node, Paint, Path, PathSegment, Stroke,
    Tree,
};

fn n(v: i64) -> Num {
    Num(v * 1_000_000)
}

fn square(closed: bool) -> Vec<PathSegment> {
    let mut d = vec![
        PathSegment::MoveTo { x: n(0), y: n(0) },
        PathSegment::LineTo { x: n(10), y: n(0) },
        PathSegment::LineTo { x: n(10), y: n(10) },
        PathSegment::LineTo { x: n(0), y: n(10) },
    ];
    if closed {
        d.push(PathSegment::ClosePath);
    }
    d
}

fn solid_fill() -> Option<Fill> {
    Some(Fill { paint: Paint::Color(Color { red: 255, green: 0, blue: 0 }), opacity: n(1) })
}

fn stroke() -> Option<Stroke> {
    Some(Stroke {
        paint: Paint::Color(Color { red: 0, green: 0, blue: 255 }),
        dasharray: None,
        dashoffset: Num(0),
        width: n(2),
        linecap: LineCap::Round,
    })
}

fn empty_tree() -> Tree {
    Tree { root: Node::Other, defs: Vec::new() }
}

fn kinds(ops: &[Operation]) -> Vec<OpKind> {
    ops.iter().map(|o| o.kind).collect()
}

fn painted_with(fill: Option<Fill>, stroke: Option<Stroke>, closed: bool) -> OpKind {
    let mut layer = PdfLayer::new("L".to_string(), 0);
    let path = Path { fill, stroke, transform: Transform::identity(), data: square(closed) };
    draw_path(&mut layer, &path, &empty_tree());
    let ops = &layer.operations;
    assert_eq!(ops.last().unwrap().kind, OpKind::RestoreState);
    ops[ops.len() - 2].kind
}

#[test]
fn closed_filled_stroked_path_fills_strokes_and_closes() {
    assert_eq!(painted_with(solid_fill(), stroke(), true), OpKind::FillStrokeClose);
}

#[test]
fn open_filled_stroked_path_only_fills() {
    assert_eq!(painted_with(solid_fill(), stroke(), false), OpKind::Fill);
}

#[test]
fn closed_stroked_path_strokes_and_closes() {
    assert_eq!(painted_with(None, stroke(), true), OpKind::StrokeClose);
}

#[test]
fn open_stroked_path_strokes() {
    assert_eq!(painted_with(None, stroke(), false), OpKind::StrokeOpen);
}

#[test]
fn filled_path_without_stroke_fills() {
    assert_eq!(painted_with(solid_fill(), None, true), OpKind::Fill);
    assert_eq!(painted_with(solid_fill(), None, false), OpKind::Fill);
}

#[test]
fn unpainted_path_ends_without_painting() {
    assert_eq!(painted_with(None, None, true), OpKind::EndPath);
    assert_eq!(painted_with(None, None, false), OpKind::EndPath);
}

#[test]
fn paint_table_matches_all_combinations() {
    assert_eq!(paint_op(true, true, true), OpKind::FillStrokeClose);
    assert_eq!(paint_op(true, true, false), OpKind::Fill);
    assert_eq!(paint_op(true, false, true), OpKind::StrokeClose);
    assert_eq!(paint_op(true, false, false), OpKind::StrokeOpen);
    assert_eq!(paint_op(false, true, true), OpKind::Fill);
    assert_eq!(paint_op(false, false, false), OpKind::EndPath);
}

#[test]
fn solid_path_emits_settings_in_order() {
    let mut layer = PdfLayer::new("L".to_string(), 3);
    let path = Path {
        fill: solid_fill(),
        stroke: Some(Stroke {
            paint: Paint::Color(Color { red: 0, green: 0, blue: 255 }),
            dasharray: Some(vec![Num(3_500_000), n(2)]),
            dashoffset: Num(-1_500_000),
            width: n(2),
            linecap: LineCap::Square,
        }),
        transform: Transform::identity(),
        data: vec![
            PathSegment::MoveTo { x: n(1), y: n(2) },
            PathSegment::CurveTo { x1: n(1), y1: n(2), x2: n(3), y2: n(4), x: n(5), y: n(6) },
        ],
    };
    draw_path(&mut layer, &path, &empty_tree());
    assert_eq!(
        kinds(&layer.operations),
        vec![
            OpKind::SaveState,
            OpKind::FillColorRgb,
            OpKind::SetGraphicsState,
            OpKind::SetDash,
            OpKind::LineWidth,
            OpKind::LineCap,
            OpKind::StrokeColorRgb,
            OpKind::Transform,
            OpKind::MoveTo,
            OpKind::CurveTo,
            OpKind::Fill,
            OpKind::RestoreState,
        ]
    );
    match &layer.operations[2].operands[0] {
        Operand::Resource(k) => assert_eq!(*k, ResourceKey { layer: 3, index: 0 }),
        _ => panic!("gs takes a resource"),
    }
    match &layer.operations[3].operands[0] {
        Operand::IntegerArray(v) => assert_eq!(v, &vec![3, 2]),
        _ => panic!("dash array"),
    }
    match &layer.operations[3].operands[1] {
        Operand::Integer(v) => assert_eq!(*v, -1),
        _ => panic!("dash phase"),
    }
    match &layer.operations[5].operands[0] {
        Operand::Integer(v) => assert_eq!(*v, 2),
        _ => panic!("cap"),
    }
    assert_eq!(layer.operations[9].operands.len(), 6);
    assert_eq!(layer.resources.len(), 1);
    match &layer.resources[0] {
        Resource::ExtGState { fill_alpha } => assert_eq!(*fill_alpha, n(1)),
        _ => panic!("alpha state"),
    }
}

fn gradient_tree(root: Node) -> Tree {
    Tree {
        root,
        defs: vec![
            Definition { id: "other".to_string(), kind: DefinitionKind::Pattern },
            Definition {
                id: "grad".to_string(),
                kind: DefinitionKind::LinearGradient(LinearGradient {
                    x1: n(0),
                    y1: n(0),
                    x2: n(1),
                    y2: n(0),
                    transform: Transform::identity(),
                    stops: vec![
                        GradientStop { offset: n(0), color: Color { red: 0, green: 0, blue: 0 } },
                        GradientStop { offset: n(1), color: Color { red: 255, green: 255, blue: 255 } },
                    ],
                }),
            },
        ],
    }
}

#[test]
fn gradient_fill_clips_and_shades() {
    let tree = gradient_tree(Node::Other);
    let mut layer = PdfLayer::new("L".to_string(), 0);
    let path = Path {
        fill: Some(Fill { paint: Paint::Link("grad".to_string()), opacity: n(1) }),
        stroke: None,
        transform: Transform::identity(),
        data: square(true),
    };
    draw_path(&mut layer, &path, &tree);
    assert_eq!(
        kinds(&layer.operations),
        vec![
            OpKind::SaveState,
            OpKind::Transform,
            OpKind::MoveTo,
            OpKind::LineTo,
            OpKind::LineTo,
            OpKind::LineTo,
            OpKind::ClosePath,
            OpKind::Clip,
            OpKind::EndPath,
            OpKind::PaintShading,
            OpKind::RestoreState,
        ]
    );
    assert_eq!(layer.resources.len(), 1);
    match &layer.resources[0] {
        Resource::Shading(s) => assert_eq!(s.function.functions.len(), 1),
        _ => panic!("shading"),
    }
}

#[test]
fn unresolved_gradient_draws_no_geometry() {
    let tree = gradient_tree(Node::Other);
    for id in ["missing", "other"] {
        let mut layer = PdfLayer::new("L".to_string(), 0);
        let path = Path {
            fill: Some(Fill { paint: Paint::Link(id.to_string()), opacity: n(1) }),
            stroke: None,
            transform: Transform::identity(),
            data: square(true),
        };
        draw_path(&mut layer, &path, &tree);
        assert_eq!(kinds(&layer.operations), vec![OpKind::SaveState, OpKind::Transform, OpKind::RestoreState]);
        assert!(layer.resources.is_empty());
    }
}

#[test]
fn nested_groups_restore_every_save() {
    let path = || Node::Path(Path { fill: solid_fill(), stroke: stroke(), transform: Transform::identity(), data: square(true) });
    let inner = Node::Group { transform: Transform::identity(), children: vec![path(), Node::Other, path()] };
    let outer = Node::Group {
        transform: Transform { a: n(2), b: n(0), c: n(0), d: n(2), e: n(5), f: n(7) },
        children: vec![inner, path()],
    };
    let root = Node::Svg { view_box_x: n(10), view_box_y: n(-20), children: vec![outer] };
    let tree = Tree { root, defs: Vec::new() };
    let mut layer = PdfLayer::new("L".to_string(), 0);
    layer.save_graphics_state();
    draw_svg(&mut layer, &tree);
    let ops = &layer.operations[1..];
    let saves = ops.iter().filter(|o| o.kind == OpKind::SaveState).count();
    let restores = ops.iter().filter(|o| o.kind == OpKind::RestoreState).count();
    assert_eq!(saves, 6);
    assert_eq!(saves, restores);
    let mut depth = 0i64;
    for o in ops {
        match o.kind {
            OpKind::SaveState => depth += 1,
            OpKind::RestoreState => depth -= 1,
            _ => {}
        }
        assert!(depth >= 0);
    }
    assert_eq!(depth, 0);
    assert_eq!(ops[0].kind, OpKind::SaveState);
    assert_eq!(ops[1].kind, OpKind::Transform);
    match (&ops[1].operands[4], &ops[1].operands[5]) {
        (Operand::Real(e), Operand::Real(f)) => {
            assert_eq!(*e, n(-10));
            assert_eq!(*f, n(20));
        }
        _ => panic!("view box translation"),
    }
    assert_eq!(ops[2].kind, OpKind::SaveState);
    match &ops[3].operands[4] {
        Operand::Real(e) => assert_eq!(*e, n(5)),
        _ => panic!("group transform"),
    }
    assert_eq!(layer.resources.len(), 3);
}

#[test]
fn other_nodes_are_skipped() {
    let mut layer = PdfLayer::new("L".to_string(), 0);
    draw_svg(&mut layer, &empty_tree());
    assert!(layer.operations.is_empty());
}

#[test]
fn definitions_are_found_by_first_matching_id() {
    let tree = gradient_tree(Node::Other);
    assert_eq!(tree.defs_by_id(&"grad".to_string()), Some(1));
    assert_eq!(tree.defs_by_id(&"other".to_string()), Some(0));
    assert_eq!(tree.defs_by_id(&"none".to_string()), None);
}
