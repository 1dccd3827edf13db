//! Renders a vector scene graph into a layer's content operations.

use vstd::prelude::*;
use crate::geometry::{Num, Color, Transform, LineCapStyle, num_to_int, div_trunc, NUM_ONE};
use crate::content::{OpKind, Operand, OperandView, Operation, OpView, ResourceKey, ops_view, bare, depth_delta, net_depth, lemma_net_depth_concat};
use crate::layer::{PdfLayer, Resource, color_operands, appended};
use crate::shading::{LinearGradient, linear_gradient_shading, shading_of};

verus! {

/// What fills or strokes a shape.
#[derive(Clone, Debug)]
pub enum Paint {
    /// A solid colour.
    Color(Color),
    /// A reference to a definition of the scene, by identifier.
    Link(String),
}

/// A fill: its paint and its opacity.
#[derive(Clone, Debug)]
pub struct Fill {
    pub paint: Paint,
    pub opacity: Num,
}

/// The cap of a stroke.
#[derive(Copy, Clone, Debug, PartialEq, Eq, Structural)]
pub enum LineCap {
    Butt,
    Round,
    Square,
}

/// A stroke: paint, dash pattern, width and cap.
#[derive(Clone, Debug)]
pub struct Stroke {
    pub paint: Paint,
    pub dasharray: Option<Vec<Num>>,
    pub dashoffset: Num,
    pub width: Num,
    pub linecap: LineCap,
}

/// One segment of a path.
#[derive(Copy, Clone, Debug, PartialEq, Eq, Structural)]
pub enum PathSegment {
    MoveTo { x: Num, y: Num },
    LineTo { x: Num, y: Num },
    CurveTo { x1: Num, y1: Num, x2: Num, y2: Num, x: Num, y: Num },
    ClosePath,
}

/// A path with its paint and its own transform.
#[derive(Clone, Debug)]
pub struct Path {
    pub fill: Option<Fill>,
    pub stroke: Option<Stroke>,
    pub transform: Transform,
    pub data: Vec<PathSegment>,
}

/// A node of the scene graph.
#[derive(Debug)]
pub enum Node {
    /// The root, whose view box starts at `(view_box_x, view_box_y)`.
    Svg { view_box_x: Num, view_box_y: Num, children: Vec<Node> },
    /// A group of nodes under a transform.
    Group { transform: Transform, children: Vec<Node> },
    /// A path.
    Path(Path),
    /// A node kind that is not drawn.
    Other,
}

/// What a definition of the scene holds.
#[derive(Clone, Debug)]
pub enum DefinitionKind {
    LinearGradient(LinearGradient),
    RadialGradient,
    Pattern,
}

/// A definition that paints refer to by identifier.
#[derive(Clone, Debug)]
pub struct Definition {
    pub id: String,
    pub kind: DefinitionKind,
}

/// A scene: its root node and its definitions.
#[derive(Debug)]
pub struct Tree {
    pub root: Node,
    pub defs: Vec<Definition>,
}

/// `i` is the first definition with identifier `id`.
pub open spec fn is_first_def(defs: Seq<Definition>, id: Seq<char>, i: int) -> bool {
    &&& 0 <= i < defs.len()
    &&& defs[i].id@ == id
    &&& forall|j: int| 0 <= j < i ==> #[trigger] defs[j].id@ != id
}

/// The first definition with identifier `id`, if any.
pub open spec fn spec_def_by_id(defs: Seq<Definition>, id: Seq<char>) -> Option<Definition> {
    if exists|i: int| is_first_def(defs, id, i) {
        Some(defs[choose|i: int| is_first_def(defs, id, i)])
    } else {
        None
    }
}

impl Tree {
    /// The position of the first definition with identifier `id`.
    pub fn defs_by_id(&self, id: &String) -> (r: Option<usize>)
        ensures
            r matches Some(i) ==> is_first_def(self.defs@, id@, i as int),
            r is None ==> forall|j: int| 0 <= j < self.defs@.len() ==> #[trigger] self.defs@[j].id@ != id@,
            spec_def_by_id(self.defs@, id@) == (match r {
                Some(i) => Some(self.defs@[i as int]),
                None => None::<Definition>,
            }),
    {
        let mut i: usize = 0;
        while i < self.defs.len()
            invariant
                i <= self.defs@.len(),
                forall|j: int| 0 <= j < i ==> #[trigger] self.defs@[j].id@ != id@,
            decreases self.defs.len() - i,
        {
            if self.defs[i].id == *id {
                proof {
                    let c = choose|k: int| is_first_def(self.defs@, id@, k);
                    assert(is_first_def(self.defs@, id@, i as int));
                    if c < i {
                        assert(self.defs@[c].id@ != id@);
                    } else if c > i {
                        assert(self.defs@[i as int].id@ != id@);
                    }
                }
                return Some(i);
            }
            i = i + 1;
        }
        None
    }
}

/// The linear gradient that a path's fill refers to, if it refers to one.
pub open spec fn spec_fill_gradient(p: Path, defs: Seq<Definition>) -> Option<LinearGradient> {
    match p.fill {
        Some(Fill { paint: Paint::Link(id), .. }) => match spec_def_by_id(defs, id@) {
            Some(Definition { kind: DefinitionKind::LinearGradient(lg), .. }) => Some(lg),
            _ => None,
        },
        _ => None,
    }
}

/// The line cap the content stream uses for a stroke's cap.
pub open spec fn spec_cap_style(c: LineCap) -> LineCapStyle {
    match c {
        LineCap::Butt => LineCapStyle::Butt,
        LineCap::Round => LineCapStyle::Round,
        LineCap::Square => LineCapStyle::ProjectingSquare,
    }
}

/// The `cm` operation of a transform.
pub open spec fn transform_op(t: Transform) -> OpView {
    OpView {
        kind: OpKind::Transform,
        operands: seq![
            OperandView::Real(t.a),
            OperandView::Real(t.b),
            OperandView::Real(t.c),
            OperandView::Real(t.d),
            OperandView::Real(t.e),
            OperandView::Real(t.f),
        ],
    }
}

/// The operation one segment contributes; a close marker contributes none.
pub open spec fn segment_op(s: PathSegment) -> Seq<OpView> {
    match s {
        PathSegment::MoveTo { x, y } => seq![
            OpView { kind: OpKind::MoveTo, operands: seq![OperandView::Real(x), OperandView::Real(y)] },
        ],
        PathSegment::LineTo { x, y } => seq![
            OpView { kind: OpKind::LineTo, operands: seq![OperandView::Real(x), OperandView::Real(y)] },
        ],
        PathSegment::CurveTo { x1, y1, x2, y2, x, y } => seq![
            OpView {
                kind: OpKind::CurveTo,
                operands: seq![
                    OperandView::Real(x1),
                    OperandView::Real(y1),
                    OperandView::Real(x2),
                    OperandView::Real(y2),
                    OperandView::Real(x),
                    OperandView::Real(y),
                ],
            },
        ],
        PathSegment::ClosePath => Seq::empty(),
    }
}

/// The operations of a path's segments, in order.
pub open spec fn segment_ops(data: Seq<PathSegment>) -> Seq<OpView>
    decreases data.len(),
{
    if data.len() == 0 {
        Seq::empty()
    } else {
        segment_ops(data.drop_last()) + segment_op(data.last())
    }
}

/// The segments hold a close marker.
pub open spec fn is_closed(data: Seq<PathSegment>) -> bool {
    exists|i: int| 0 <= i < data.len() && data[i] == PathSegment::ClosePath
}

/// The painting operator for a path, by whether it is stroked, filled and
/// closed.
pub open spec fn spec_paint_op(stroke: bool, fill: bool, closed: bool) -> OpKind {
    if stroke && fill && closed {
        OpKind::FillStrokeClose
    } else if stroke && fill {
        OpKind::Fill
    } else if stroke && closed {
        OpKind::StrokeClose
    } else if stroke {
        OpKind::StrokeOpen
    } else if fill {
        OpKind::Fill
    } else {
        OpKind::EndPath
    }
}

/// The painting operator for a path, by whether it is stroked, filled and
/// closed.
pub fn paint_op(stroke: bool, fill: bool, closed: bool) -> (r: OpKind)
    ensures
        r == spec_paint_op(stroke, fill, closed),
{
    match (stroke, fill, closed) {
        (true, true, true) => OpKind::FillStrokeClose,
        (true, true, false) => OpKind::Fill,
        (true, false, true) => OpKind::StrokeClose,
        (true, false, false) => OpKind::StrokeOpen,
        (false, true, _) => OpKind::Fill,
        _ => OpKind::EndPath,
    }
}

/// The whole part of each dash length.
pub open spec fn spec_dash_ints(d: Option<Vec<Num>>) -> Seq<i64> {
    match d {
        Some(v) => v@.map_values(|n: Num| div_trunc(n.0 as int, NUM_ONE as int) as i64),
        None => Seq::empty(),
    }
}

/// What a solid fill sets before the geometry: colour, then alpha.
pub open spec fn fill_setup_ops(p: Path, key: ResourceKey) -> Seq<OpView> {
    match p.fill {
        Some(Fill { paint: Paint::Color(c), .. }) => seq![
            OpView { kind: OpKind::FillColorRgb, operands: color_operands(c) },
            OpView { kind: OpKind::SetGraphicsState, operands: seq![OperandView::Resource(key)] },
        ],
        _ => Seq::empty(),
    }
}

/// What a stroke sets before the geometry: dash, width, cap, then colour
/// when solid.
pub open spec fn stroke_setup_ops(p: Path) -> Seq<OpView> {
    match p.stroke {
        Some(st) => seq![
            OpView {
                kind: OpKind::SetDash,
                operands: seq![
                    OperandView::IntegerArray(spec_dash_ints(st.dasharray)),
                    OperandView::Integer(div_trunc(st.dashoffset.0 as int, NUM_ONE as int) as i64),
                ],
            },
            OpView { kind: OpKind::LineWidth, operands: seq![OperandView::Real(st.width)] },
            OpView { kind: OpKind::LineCap, operands: seq![OperandView::Integer(spec_cap_style(st.linecap).spec_code())] },
        ] + match st.paint {
            Paint::Color(c) => seq![OpView { kind: OpKind::StrokeColorRgb, operands: color_operands(c) }],
            Paint::Link(_) => Seq::empty(),
        },
        None => Seq::empty(),
    }
}

/// The geometry and painting of a path: for a fill that refers to a
/// definition, the path clipped and shaded when it is a linear gradient and
/// nothing otherwise; else the path followed by its painting operator.
pub open spec fn paint_ops(p: Path, defs: Seq<Definition>, key: ResourceKey) -> Seq<OpView> {
    match p.fill {
        Some(Fill { paint: Paint::Link(_), .. }) => match spec_fill_gradient(p, defs) {
            Some(_) => segment_ops(p.data@) + seq![
                bare(OpKind::ClosePath),
                bare(OpKind::Clip),
                bare(OpKind::EndPath),
                OpView { kind: OpKind::PaintShading, operands: seq![OperandView::Resource(key)] },
            ],
            None => Seq::empty(),
        },
        _ => segment_ops(p.data@) + seq![
            bare(spec_paint_op(p.stroke is Some, p.fill is Some, is_closed(p.data@))),
        ],
    }
}

/// Everything drawing a path emits, when the next resource it registers
/// gets `key`.
pub open spec fn path_ops(p: Path, defs: Seq<Definition>, key: ResourceKey) -> Seq<OpView> {
    seq![bare(OpKind::SaveState)] + fill_setup_ops(p, key) + stroke_setup_ops(p) + seq![
        transform_op(p.transform),
    ] + paint_ops(p, defs, key) + seq![bare(OpKind::RestoreState)]
}

/// How many resources drawing a path registers: one for a solid fill's
/// alpha or for a resolved gradient, else none.
pub open spec fn path_res_count(p: Path, defs: Seq<Definition>) -> nat {
    match p.fill {
        Some(Fill { paint: Paint::Color(_), .. }) => 1,
        _ => if spec_fill_gradient(p, defs) is Some {
            1
        } else {
            0
        },
    }
}

/// The resources drawing a path registers in `old_layer`, giving `layer`.
pub open spec fn path_resources(p: Path, defs: Seq<Definition>, old_layer: PdfLayer, layer: PdfLayer) -> bool {
    match p.fill {
        Some(Fill { paint: Paint::Color(_), opacity }) => layer.resources@ == old_layer.resources@.push(
            Resource::ExtGState { fill_alpha: opacity },
        ),
        _ => match spec_fill_gradient(p, defs) {
            Some(lg) => {
                &&& layer.resources@.len() == old_layer.resources@.len() + 1
                &&& layer.resources@.drop_last() == old_layer.resources@
                &&& layer.resources@.last() matches Resource::Shading(s)
                &&& shading_of(s, lg)
            },
            None => layer.resources@ == old_layer.resources@,
        },
    }
}

/// Appends the `cm` operation of a transform.
fn apply_transform(layer: &mut PdfLayer, t: Transform)
    ensures
        appended(*old(layer), *final(layer), seq![transform_op(t)]),
{
    let op = Operation::new(
        OpKind::Transform,
        vec![
            Operand::Real(t.a),
            Operand::Real(t.b),
            Operand::Real(t.c),
            Operand::Real(t.d),
            Operand::Real(t.e),
            Operand::Real(t.f),
        ],
    );
    proof {
        assert(op@.operands =~= transform_op(t).operands);
    }
    layer.add_op(op);
}

/// The operands of a dash operation: the whole part of each dash length,
/// and of the phase.
fn dash_operands(st: &Stroke) -> (r: Vec<Operand>)
    ensures
        r@.map_values(|o: Operand| o@) == seq![
            OperandView::IntegerArray(spec_dash_ints(st.dasharray)),
            OperandView::Integer(div_trunc(st.dashoffset.0 as int, NUM_ONE as int) as i64),
        ],
{
    let mut ints: Vec<i64> = Vec::new();
    match &st.dasharray {
        Some(d) => {
            let mut i: usize = 0;
            while i < d.len()
                invariant
                    i <= d@.len(),
                    ints@ =~= d@.subrange(0, i as int).map_values(
                        |n: Num| div_trunc(n.0 as int, NUM_ONE as int) as i64,
                    ),
                decreases d.len() - i,
            {
                ints.push(num_to_int(d[i]));
                i = i + 1;
            }
            proof {
                assert(d@.subrange(0, d@.len() as int) =~= d@);
            }
        },
        None => {},
    }
    let r = vec![Operand::IntegerArray(ints), Operand::Integer(num_to_int(st.dashoffset))];
    proof {
        assert(r@.map_values(|o: Operand| o@) =~= seq![
            OperandView::IntegerArray(spec_dash_ints(st.dasharray)),
            OperandView::Integer(div_trunc(st.dashoffset.0 as int, NUM_ONE as int) as i64),
        ]);
    }
    r
}

/// The operation of one segment, with whether it was a close marker.
fn segment_operations(s: PathSegment, ops: &mut Vec<Operation>) -> (closes: bool)
    ensures
        ops_view(final(ops)@) == ops_view(old(ops)@) + segment_op(s),
        closes == (s == PathSegment::ClosePath),
{
    let ghost before = ops@;
    let closes = match s {
        PathSegment::MoveTo { x, y } => {
            ops.push(Operation::new(OpKind::MoveTo, vec![Operand::Real(x), Operand::Real(y)]));
            false
        },
        PathSegment::LineTo { x, y } => {
            ops.push(Operation::new(OpKind::LineTo, vec![Operand::Real(x), Operand::Real(y)]));
            false
        },
        PathSegment::CurveTo { x1, y1, x2, y2, x, y } => {
            ops.push(
                Operation::new(
                    OpKind::CurveTo,
                    vec![
                        Operand::Real(x1),
                        Operand::Real(y1),
                        Operand::Real(x2),
                        Operand::Real(y2),
                        Operand::Real(x),
                        Operand::Real(y),
                    ],
                ),
            );
            false
        },
        PathSegment::ClosePath => true,
    };
    proof {
        if !closes {
            assert(ops@.last()@.operands =~= segment_op(s)[0].operands);
        }
        assert(ops_view(ops@) =~= ops_view(before) + segment_op(s));
    }
    closes
}

/// Appends an operation without operands to a list.
fn push_bare(ops: &mut Vec<Operation>, kind: OpKind)
    ensures
        ops_view(final(ops)@) == ops_view(old(ops)@).push(bare(kind)),
{
    let op = Operation::new(kind, Vec::new());
    proof {
        assert(op@.operands =~= Seq::<OperandView>::empty());
    }
    ops.push(op);
    proof {
        assert(ops_view(final(ops)@) =~= ops_view(old(ops)@).push(bare(kind)));
    }
}

/// Draws a path: paint settings, its transform, its segments, then the
/// painting operator (or the clip and shading of a gradient fill), all
/// inside one saved graphics state.
#[verifier::rlimit(60)]
pub fn draw_path(layer: &mut PdfLayer, path: &Path, tree: &Tree)
    ensures
        ops_view(final(layer).operations@) == ops_view(old(layer).operations@) + path_ops(
            *path,
            tree.defs@,
            old(layer).next_key(),
        ),
        path_resources(*path, tree.defs@, *old(layer), *final(layer)),
        final(layer).resources@.len() == old(layer).resources@.len() + path_res_count(*path, tree.defs@),
        final(layer).name == old(layer).name,
        final(layer).index == old(layer).index,
{
    let ghost start = *layer;
    layer.save_graphics_state();
    match &path.fill {
        Some(Fill { paint: Paint::Color(c), opacity }) => {
            layer.set_fill_color(*c);
            layer.set_fill_alpha(*opacity);
        },
        _ => {},
    }
    proof {
        assert(ops_view(layer.operations@) =~= ops_view(start.operations@) + seq![bare(OpKind::SaveState)]
            + fill_setup_ops(*path, start.next_key()));
    }
    let ghost after_fill = *layer;
    match &path.stroke {
        Some(st) => {
            let dash = Operation::new(OpKind::SetDash, dash_operands(st));
            layer.add_op(dash);
            layer.set_outline_thickness(st.width);
            let cap = match st.linecap {
                LineCap::Butt => LineCapStyle::Butt,
                LineCap::Round => LineCapStyle::Round,
                LineCap::Square => LineCapStyle::ProjectingSquare,
            };
            layer.set_line_cap_style(cap);
            match &st.paint {
                Paint::Color(c) => {
                    layer.set_outline_color(*c);
                },
                Paint::Link(_) => {},
            }
        },
        None => {},
    }
    proof {
        assert(ops_view(layer.operations@) =~= ops_view(after_fill.operations@) + stroke_setup_ops(*path));
    }
    apply_transform(layer, path.transform);
    let ghost before_paint = *layer;
    let mut ops: Vec<Operation> = Vec::new();
    let mut closed = false;
    let mut i: usize = 0;
    while i < path.data.len()
        invariant
            i <= path.data@.len(),
            ops_view(ops@) == segment_ops(path.data@.subrange(0, i as int)),
            closed == is_closed(path.data@.subrange(0, i as int)),
        decreases path.data.len() - i,
    {
        let c = segment_operations(path.data[i], &mut ops);
        proof {
            let pre = path.data@.subrange(0, i as int);
            let next = path.data@.subrange(0, i + 1);
            assert(next.drop_last() =~= pre);
            if c {
                assert(next[i as int] == PathSegment::ClosePath);
            }
            if closed {
                let k = choose|k: int| 0 <= k < pre.len() && pre[k] == PathSegment::ClosePath;
                assert(next[k] == PathSegment::ClosePath);
            }
            if is_closed(next) && !c {
                let k = choose|k: int| 0 <= k < next.len() && next[k] == PathSegment::ClosePath;
                assert(pre[k] == PathSegment::ClosePath);
            }
        }
        closed = closed || c;
        i = i + 1;
    }
    proof {
        assert(path.data@.subrange(0, path.data@.len() as int) =~= path.data@);
    }
    match &path.fill {
        Some(Fill { paint: Paint::Link(id), .. }) => {
            match tree.defs_by_id(id) {
                Some(k) => {
                    match &tree.defs[k].kind {
                        DefinitionKind::LinearGradient(lg) => {
                            proof {
                                assert(spec_fill_gradient(*path, tree.defs@) == Some(*lg));
                                assert(layer.resources@ == start.resources@);
                            }
                            let shading = linear_gradient_shading(lg);
                            let ghost res_before = layer.resources@;
                            let key = layer.add_resource(Resource::Shading(shading));
                            proof {
                                assert(key == start.next_key());
                                assert(layer.resources@.drop_last() =~= res_before);
                            }
                            push_bare(&mut ops, OpKind::ClosePath);
                            push_bare(&mut ops, OpKind::Clip);
                            push_bare(&mut ops, OpKind::EndPath);
                            let sh = Operation::new(OpKind::PaintShading, vec![Operand::Resource(key)]);
                            proof {
                                assert(sh@.operands =~= seq![OperandView::Resource(key)]);
                            }
                            let ghost prev = ops@;
                            ops.push(sh);
                            proof {
                                assert(ops_view(ops@) =~= ops_view(prev).push(sh@));
                                assert(ops_view(ops@) =~= segment_ops(path.data@) + seq![
                                    bare(OpKind::ClosePath),
                                    bare(OpKind::Clip),
                                    bare(OpKind::EndPath),
                                    OpView { kind: OpKind::PaintShading, operands: seq![OperandView::Resource(key)] },
                                ]);
                                assert(ops_view(ops@) =~= paint_ops(*path, tree.defs@, start.next_key()));
                            }
                            layer.add_ops(ops);
                        },
                        _ => {
                            proof {
                                assert(paint_ops(*path, tree.defs@, start.next_key()) =~= Seq::<OpView>::empty());
                                assert(ops_view(layer.operations@) =~= ops_view(layer.operations@) + paint_ops(*path, tree.defs@, start.next_key()));
                            }
                        },
                    }
                },
                None => {
                    proof {
                        assert(paint_ops(*path, tree.defs@, start.next_key()) =~= Seq::<OpView>::empty());
                        assert(ops_view(layer.operations@) =~= ops_view(layer.operations@) + paint_ops(*path, tree.defs@, start.next_key()));
                    }
                },
            }
        },
        _ => {
            let kind = paint_op(path.stroke.is_some(), path.fill.is_some(), closed);
            push_bare(&mut ops, kind);
            layer.add_ops(ops);
        },
    }
    proof {
        assert(ops_view(layer.operations@) =~= ops_view(before_paint.operations@) + paint_ops(*path, tree.defs@, start.next_key()));
    }
    layer.restore_graphics_state();
    proof {
        assert(ops_view(layer.operations@) =~= ops_view(start.operations@) + path_ops(*path, tree.defs@, start.next_key()));
    }
}

/// The operations added to `old_layer` to give `layer`.
pub open spec fn added_ops(old_layer: PdfLayer, layer: PdfLayer) -> Seq<OpView> {
    ops_view(layer.operations@).skip(old_layer.operations@.len() as int)
}

/// `layer` is `old_layer` with operations and resources appended.
pub open spec fn extends(old_layer: PdfLayer, layer: PdfLayer) -> bool {
    &&& layer.operations@.len() >= old_layer.operations@.len()
    &&& ops_view(layer.operations@).take(old_layer.operations@.len() as int) == ops_view(old_layer.operations@)
    &&& layer.resources@.len() >= old_layer.resources@.len()
    &&& layer.resources@.take(old_layer.resources@.len() as int) == old_layer.resources@
    &&& layer.name == old_layer.name
    &&& layer.index == old_layer.index
}

proof fn lemma_extends_trans(a: PdfLayer, b: PdfLayer, c: PdfLayer)
    requires
        extends(a, b),
        extends(b, c),
    ensures
        extends(a, c),
        added_ops(a, c) == added_ops(a, b) + added_ops(b, c),
{
    let va = ops_view(a.operations@);
    let vb = ops_view(b.operations@);
    let vc = ops_view(c.operations@);
    assert(vc.take(a.operations@.len() as int) =~= vb.take(a.operations@.len() as int));
    assert(c.resources@.take(a.resources@.len() as int) =~= b.resources@.take(a.resources@.len() as int));
    assert(added_ops(a, c) =~= added_ops(a, b) + added_ops(b, c));
}

proof fn lemma_extends_appended(a: PdfLayer, b: PdfLayer, ops: Seq<OpView>)
    requires
        ops_view(b.operations@) == ops_view(a.operations@) + ops,
        b.resources@ == a.resources@ || (b.resources@.len() >= a.resources@.len()
            && b.resources@.take(a.resources@.len() as int) == a.resources@),
        b.name == a.name,
        b.index == a.index,
    ensures
        extends(a, b),
        added_ops(a, b) == ops,
{
    assert(ops_view(b.operations@).take(a.operations@.len() as int) =~= ops_view(a.operations@));
    assert(added_ops(a, b) =~= ops);
    assert(a.resources@.take(a.resources@.len() as int) =~= a.resources@);
}

/// A sequence whose operations neither save nor restore has depth zero.
proof fn lemma_net_depth_flat(s: Seq<OpView>)
    requires
        forall|i: int| 0 <= i < s.len() ==> depth_delta(#[trigger] s[i]) == 0,
    ensures
        net_depth(s) == 0,
    decreases s.len(),
{
    if s.len() > 0 {
        lemma_net_depth_flat(s.drop_last());
    }
}

proof fn lemma_segment_ops_flat(data: Seq<PathSegment>)
    ensures
        forall|i: int| 0 <= i < segment_ops(data).len() ==> depth_delta(#[trigger] segment_ops(data)[i]) == 0,
    decreases data.len(),
{
    if data.len() > 0 {
        lemma_segment_ops_flat(data.drop_last());
        let a = segment_ops(data.drop_last());
        let b = segment_op(data.last());
        assert(segment_ops(data) == a + b);
        assert forall|i: int| 0 <= i < segment_ops(data).len() implies depth_delta(#[trigger] segment_ops(data)[i]) == 0 by {
            if i >= a.len() {
                assert(segment_ops(data)[i] == b[i - a.len()]);
            } else {
                assert(segment_ops(data)[i] == a[i]);
            }
        }
    }
}

/// Drawing a path saves and restores the graphics state once each.
proof fn lemma_path_ops_balanced(p: Path, defs: Seq<Definition>, key: ResourceKey)
    ensures
        net_depth(path_ops(p, defs, key)) == 0,
{
    lemma_segment_ops_flat(p.data@);
    let inner = fill_setup_ops(p, key) + stroke_setup_ops(p) + seq![transform_op(p.transform)]
        + paint_ops(p, defs, key);
    assert forall|i: int| 0 <= i < inner.len() implies depth_delta(#[trigger] inner[i]) == 0 by {
        let a = fill_setup_ops(p, key);
        let b = stroke_setup_ops(p);
        let pa = paint_ops(p, defs, key);
        if i >= a.len() + b.len() + 1 {
            let j = i - (a.len() + b.len() + 1);
            assert(inner[i] == pa[j]);
            let sg = segment_ops(p.data@);
            if j < sg.len() {
                assert(pa[j] == sg[j]);
            }
        }
    }
    lemma_net_depth_flat(inner);
    let q = seq![bare(OpKind::SaveState)];
    let qq = seq![bare(OpKind::RestoreState)];
    assert(path_ops(p, defs, key) =~= q + inner + qq);
    lemma_net_depth_concat(q, inner);
    lemma_net_depth_concat(q + inner, qq);
    assert(net_depth(q) == net_depth(Seq::<OpView>::empty()) + 1) by {
        assert(q.drop_last() =~= Seq::<OpView>::empty());
    }
    assert(net_depth(qq) == net_depth(Seq::<OpView>::empty()) - 1) by {
        assert(qq.drop_last() =~= Seq::<OpView>::empty());
    }
}

proof fn lemma_wrapped_balanced(head: Seq<OpView>, inner: Seq<OpView>)
    requires
        head.len() == 2,
        head[0] == bare(OpKind::SaveState),
        depth_delta(head[1]) == 0,
        net_depth(inner) == 0,
    ensures
        net_depth(head + inner + seq![bare(OpKind::RestoreState)]) == 0,
{
    let qq = seq![bare(OpKind::RestoreState)];
    let h0 = head.drop_last();
    assert(h0.drop_last() =~= Seq::<OpView>::empty());
    assert(h0.last() == bare(OpKind::SaveState));
    assert(net_depth(Seq::<OpView>::empty()) == 0);
    assert(net_depth(h0) == 1);
    assert(net_depth(head) == 1);
    lemma_net_depth_concat(head, inner);
    lemma_net_depth_concat(head + inner, qq);
    assert(qq.drop_last() =~= Seq::<OpView>::empty());
}

/// The transform that moves a view box's origin to `(0, 0)`.
pub open spec fn view_box_translation(x: Num, y: Num) -> Transform {
    Transform::spec_translation(x.spec_neg(), y.spec_neg())
}

/// How many resources drawing a node registers.
pub open spec fn node_res_count(n: Node, defs: Seq<Definition>) -> nat
    decreases n,
{
    match n {
        Node::Svg { children, .. } => children_res_count(children@, defs),
        Node::Group { children, .. } => children_res_count(children@, defs),
        Node::Path(p) => path_res_count(p, defs),
        Node::Other => 0,
    }
}

/// How many resources drawing a sequence of nodes registers.
pub open spec fn children_res_count(c: Seq<Node>, defs: Seq<Definition>) -> nat
    decreases c,
{
    if c.len() == 0 {
        0
    } else {
        node_res_count(c[0], defs) + children_res_count(c.drop_first(), defs)
    }
}

/// Everything drawing a node emits into layer `li` when its resource
/// table holds `r` entries: the root and groups save the state, apply their
/// transform, draw their children and restore; a path is drawn as
/// `path_ops` says; other kinds emit nothing.
pub open spec fn node_ops(n: Node, defs: Seq<Definition>, li: usize, r: nat) -> Seq<OpView>
    decreases n,
{
    match n {
        Node::Svg { view_box_x, view_box_y, children } => seq![
            bare(OpKind::SaveState),
            transform_op(view_box_translation(view_box_x, view_box_y)),
        ] + children_ops(children@, defs, li, r) + seq![bare(OpKind::RestoreState)],
        Node::Group { transform, children } => seq![bare(OpKind::SaveState), transform_op(transform)]
            + children_ops(children@, defs, li, r) + seq![bare(OpKind::RestoreState)],
        Node::Path(p) => path_ops(p, defs, ResourceKey { layer: li, index: r as usize }),
        Node::Other => Seq::empty(),
    }
}

/// Everything drawing a sequence of nodes emits, one after the other.
pub open spec fn children_ops(c: Seq<Node>, defs: Seq<Definition>, li: usize, r: nat) -> Seq<OpView>
    decreases c,
{
    if c.len() == 0 {
        Seq::empty()
    } else {
        node_ops(c[0], defs, li, r) + children_ops(c.drop_first(), defs, li, r + node_res_count(c[0], defs))
    }
}

/// The resources drawing a path registers are `added`: a solid fill's
/// alpha, or the shading of the gradient its fill resolves to, or none.
pub open spec fn path_res_ok(p: Path, defs: Seq<Definition>, added: Seq<Resource>) -> bool {
    match p.fill {
        Some(Fill { paint: Paint::Color(_), opacity }) => added == seq![Resource::ExtGState { fill_alpha: opacity }],
        _ => match spec_fill_gradient(p, defs) {
            Some(lg) => {
                &&& added.len() == 1
                &&& added[0] matches Resource::Shading(s)
                &&& shading_of(s, lg)
            },
            None => added.len() == 0,
        },
    }
}

/// The resources drawing a node registers are `added`, each path's in
/// drawing order.
pub open spec fn node_res_ok(n: Node, defs: Seq<Definition>, added: Seq<Resource>) -> bool
    decreases n,
{
    match n {
        Node::Svg { children, .. } => children_res_ok(children@, defs, added),
        Node::Group { children, .. } => children_res_ok(children@, defs, added),
        Node::Path(p) => path_res_ok(p, defs, added),
        Node::Other => added.len() == 0,
    }
}

/// The resources drawing a sequence of nodes registers are `added`.
pub open spec fn children_res_ok(c: Seq<Node>, defs: Seq<Definition>, added: Seq<Resource>) -> bool
    decreases c,
{
    if c.len() == 0 {
        added.len() == 0
    } else {
        let k = node_res_count(c.last(), defs);
        &&& added.len() >= k
        &&& children_res_ok(c.drop_last(), defs, added.take(added.len() - k))
        &&& node_res_ok(c.last(), defs, added.skip(added.len() - k))
    }
}

/// The resources added to `old_layer` to give `layer`.
pub open spec fn added_res(old_layer: PdfLayer, layer: PdfLayer) -> Seq<Resource> {
    layer.resources@.skip(old_layer.resources@.len() as int)
}

/// Drawing any node restores every graphics state it saves: the stack is
/// back at its depth when the node is done.
pub proof fn lemma_node_ops_balanced(n: Node, defs: Seq<Definition>, li: usize, r: nat)
    ensures
        net_depth(node_ops(n, defs, li, r)) == 0,
    decreases n,
{
    match n {
        Node::Svg { view_box_x, view_box_y, children } => {
            lemma_children_ops_balanced(children@, defs, li, r);
            lemma_wrapped_balanced(
                seq![bare(OpKind::SaveState), transform_op(view_box_translation(view_box_x, view_box_y))],
                children_ops(children@, defs, li, r),
            );
        },
        Node::Group { transform, children } => {
            lemma_children_ops_balanced(children@, defs, li, r);
            lemma_wrapped_balanced(
                seq![bare(OpKind::SaveState), transform_op(transform)],
                children_ops(children@, defs, li, r),
            );
        },
        Node::Path(p) => {
            lemma_path_ops_balanced(p, defs, ResourceKey { layer: li, index: r as usize });
        },
        Node::Other => {},
    }
}

/// Drawing a sequence of nodes restores every graphics state it saves.
pub proof fn lemma_children_ops_balanced(c: Seq<Node>, defs: Seq<Definition>, li: usize, r: nat)
    ensures
        net_depth(children_ops(c, defs, li, r)) == 0,
    decreases c,
{
    if c.len() > 0 {
        lemma_node_ops_balanced(c[0], defs, li, r);
        lemma_children_ops_balanced(c.drop_first(), defs, li, r + node_res_count(c[0], defs));
        lemma_net_depth_concat(
            node_ops(c[0], defs, li, r),
            children_ops(c.drop_first(), defs, li, r + node_res_count(c[0], defs)),
        );
    }
}

/// Draws a scene graph into a layer, starting at its root.
pub fn draw_svg(layer: &mut PdfLayer, tree: &Tree)
    ensures
        extends(*old(layer), *final(layer)),
        added_ops(*old(layer), *final(layer)) == node_ops(
            tree.root,
            tree.defs@,
            old(layer).index,
            old(layer).resources@.len(),
        ),
        final(layer).resources@.len() == old(layer).resources@.len() + node_res_count(tree.root, tree.defs@),
        node_res_ok(tree.root, tree.defs@, added_res(*old(layer), *final(layer))),
        net_depth(added_ops(*old(layer), *final(layer))) == 0,
{
    draw_node(layer, &tree.root, tree);
}

/// Draws one node. The root and groups are drawn inside a saved graphics
/// state under their transform; other node kinds are skipped.
pub fn draw_node(layer: &mut PdfLayer, node: &Node, tree: &Tree)
    ensures
        extends(*old(layer), *final(layer)),
        added_ops(*old(layer), *final(layer)) == node_ops(
            *node,
            tree.defs@,
            old(layer).index,
            old(layer).resources@.len(),
        ),
        final(layer).resources@.len() == old(layer).resources@.len() + node_res_count(*node, tree.defs@),
        node_res_ok(*node, tree.defs@, added_res(*old(layer), *final(layer))),
        net_depth(added_ops(*old(layer), *final(layer))) == 0,
        *node matches Node::Path(p) ==> path_resources(p, tree.defs@, *old(layer), *final(layer)),
    decreases node,
{
    let ghost start = *layer;
    proof {
        lemma_node_ops_balanced(*node, tree.defs@, start.index, start.resources@.len());
    }
    match node {
        Node::Svg { view_box_x, view_box_y, children } => {
            layer.save_graphics_state();
            let t = Transform {
                a: Num(NUM_ONE),
                b: Num(0),
                c: Num(0),
                d: Num(NUM_ONE),
                e: view_box_x.neg(),
                f: view_box_y.neg(),
            };
            apply_transform(layer, t);
            let ghost mid = *layer;
            proof {
                assert(ops_view(mid.operations@) =~= ops_view(start.operations@) + seq![bare(OpKind::SaveState), transform_op(t)]);
                lemma_extends_appended(start, mid, seq![bare(OpKind::SaveState), transform_op(t)]);
            }
            draw_group(layer, children, tree);
            let ghost inner = *layer;
            layer.restore_graphics_state();
            proof {
                lemma_extends_appended(inner, *layer, seq![bare(OpKind::RestoreState)]);
                lemma_extends_trans(start, mid, inner);
                lemma_extends_trans(start, inner, *layer);
                let head = seq![bare(OpKind::SaveState), transform_op(t)];
                assert(added_ops(start, *layer) =~= head + added_ops(mid, inner) + seq![bare(OpKind::RestoreState)]);
                assert(added_res(start, *layer) =~= added_res(mid, inner));
            }
        },
        Node::Group { transform, children } => {
            layer.save_graphics_state();
            apply_transform(layer, *transform);
            let ghost mid = *layer;
            proof {
                assert(ops_view(mid.operations@) =~= ops_view(start.operations@) + seq![bare(OpKind::SaveState), transform_op(*transform)]);
                lemma_extends_appended(start, mid, seq![bare(OpKind::SaveState), transform_op(*transform)]);
            }
            draw_group(layer, children, tree);
            let ghost inner = *layer;
            layer.restore_graphics_state();
            proof {
                lemma_extends_appended(inner, *layer, seq![bare(OpKind::RestoreState)]);
                lemma_extends_trans(start, mid, inner);
                lemma_extends_trans(start, inner, *layer);
                let head = seq![bare(OpKind::SaveState), transform_op(*transform)];
                assert(added_ops(start, *layer) =~= head + added_ops(mid, inner) + seq![bare(OpKind::RestoreState)]);
                assert(added_res(start, *layer) =~= added_res(mid, inner));
            }
        },
        Node::Path(p) => {
            draw_path(layer, p, tree);
            proof {
                let r = layer.resources@;
                let n = start.resources@.len() as int;
                if r.len() > n {
                    assert(r.drop_last() == start.resources@);
                    assert forall|k: int| 0 <= k < n implies r[k] == start.resources@[k] by {
                        assert(r[k] == r.drop_last()[k]);
                    }
                    assert(r.take(n) =~= start.resources@);
                    assert(r.skip(n) =~= seq![r[n]]);
                } else {
                    assert(r.skip(n) =~= Seq::<Resource>::empty());
                }
                lemma_extends_appended(start, *layer, path_ops(*p, tree.defs@, start.next_key()));
            }
        },
        Node::Other => {
            proof {
                lemma_extends_appended(start, *layer, Seq::empty());
                assert(ops_view(layer.operations@) =~= ops_view(start.operations@) + Seq::<OpView>::empty());
                assert(added_res(start, *layer) =~= Seq::<Resource>::empty());
            }
        },
    }
}

/// Draws the children of a node, in order.
fn draw_group(layer: &mut PdfLayer, children: &Vec<Node>, tree: &Tree)
    ensures
        extends(*old(layer), *final(layer)),
        added_ops(*old(layer), *final(layer)) == children_ops(
            children@,
            tree.defs@,
            old(layer).index,
            old(layer).resources@.len(),
        ),
        final(layer).resources@.len() == old(layer).resources@.len() + children_res_count(children@, tree.defs@),
        children_res_ok(children@, tree.defs@, added_res(*old(layer), *final(layer))),
    decreases children,
{
    let ghost start = *layer;
    let ghost defs = tree.defs@;
    proof {
        lemma_extends_appended(start, start, Seq::empty());
        assert(ops_view(start.operations@) =~= ops_view(start.operations@) + Seq::<OpView>::empty());
        assert(children@.subrange(0, children@.len() as int) =~= children@);
        assert(children@.take(0) =~= Seq::<Node>::empty());
        assert(added_res(start, start) =~= Seq::<Resource>::empty());
    }
    let mut i: usize = 0;
    while i < children.len()
        invariant
            i <= children@.len(),
            defs == tree.defs@,
            extends(start, *layer),
            children_ops(children@, defs, start.index, start.resources@.len()) == added_ops(start, *layer)
                + children_ops(children@.subrange(i as int, children@.len() as int), defs, layer.index, layer.resources@.len()),
            children_res_count(children@, defs) + start.resources@.len() == layer.resources@.len()
                + children_res_count(children@.subrange(i as int, children@.len() as int), defs),
            children_res_ok(children@.take(i as int), defs, added_res(start, *layer)),
        decreases children.len() - i,
    {
        let ghost before = *layer;
        let ghost rest = children@.subrange(i as int, children@.len() as int);
        proof {
            assert(rest[0] == children@[i as int]);
            assert(rest.drop_first() =~= children@.subrange(i + 1, children@.len() as int));
        }
        draw_node(layer, &children[i], tree);
        proof {
            lemma_extends_trans(start, before, *layer);
            let c1 = children@.take(i + 1);
            assert(c1.drop_last() =~= children@.take(i as int));
            assert(c1.last() == children@[i as int]);
            let added = added_res(start, *layer);
            let kk = node_res_count(children@[i as int], defs);
            assert(added.len() - kk == before.resources@.len() - start.resources@.len());
            assert forall|j: int| 0 <= j < before.resources@.len() implies layer.resources@[j] == before.resources@[j] by {
                assert(layer.resources@.take(before.resources@.len() as int)[j] == layer.resources@[j]);
            }
            assert(added.take(added.len() - kk) =~= added_res(start, before));
            assert(added.skip(added.len() - kk) =~= added_res(before, *layer));
            assert(children_ops(children@, defs, start.index, start.resources@.len()) =~= added_ops(start, *layer)
                + children_ops(children@.subrange(i + 1, children@.len() as int), defs, layer.index, layer.resources@.len()));
        }
        i = i + 1;
    }
    proof {
        assert(children@.take(children@.len() as int) =~= children@);
        assert(children@.subrange(children@.len() as int, children@.len() as int) =~= Seq::<Node>::empty());
        assert(added_ops(start, *layer) =~= added_ops(start, *layer) + Seq::<OpView>::empty());
    }
}

/// The painting operator follows the table: stroked, filled and closed
/// fills and strokes and closes (`b`); stroked and filled but open only
/// fills (`f`); stroked, unfilled and closed strokes and closes (`s`);
/// stroked, unfilled and open strokes (`S`); filled and unstroked fills
/// (`f`); neither paints nothing (`n`).
pub proof fn lemma_paint_operator_table(stroke: bool, fill: bool, closed: bool)
    ensures
        stroke && fill && closed ==> spec_paint_op(stroke, fill, closed) == OpKind::FillStrokeClose,
        stroke && fill && !closed ==> spec_paint_op(stroke, fill, closed) == OpKind::Fill,
        stroke && !fill && closed ==> spec_paint_op(stroke, fill, closed) == OpKind::StrokeClose,
        stroke && !fill && !closed ==> spec_paint_op(stroke, fill, closed) == OpKind::StrokeOpen,
        !stroke && fill ==> spec_paint_op(stroke, fill, closed) == OpKind::Fill,
        !stroke && !fill ==> spec_paint_op(stroke, fill, closed) == OpKind::EndPath,
{
}

/// A path whose fill is solid or absent is painted by the operator of the
/// table, just before the graphics state is restored.
pub proof fn lemma_path_paint_operator(p: Path, defs: Seq<Definition>, key: ResourceKey)
    requires
        !(p.fill matches Some(Fill { paint: Paint::Link(_), .. })),
    ensures
        path_ops(p, defs, key).len() >= 2,
        path_ops(p, defs, key)[path_ops(p, defs, key).len() - 2] == bare(
            spec_paint_op(p.stroke is Some, p.fill is Some, is_closed(p.data@)),
        ),
        path_ops(p, defs, key).last() == bare(OpKind::RestoreState),
{
}

} // verus!
