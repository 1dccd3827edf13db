//! Layers and pages: named operation buffers with their resource tables.

use vstd::prelude::*;
use crate::geometry::{Num, Color, LineCapStyle};
use crate::indices::PdfLayerIndex;
use crate::content::{OpKind, Operand, OperandView, Operation, OpView, ResourceKey, ops_view, bare};
use crate::shading::{AxialShading, color, spec_color};

verus! {

/// Something a layer's operations refer to by name.
#[derive(Clone, Debug)]
pub enum Resource {
    /// A graphics-state parameter dictionary that sets the fill alpha.
    ExtGState { fill_alpha: Num },
    /// A shading painted with `sh`.
    Shading(AxialShading),
}

/// A named drawing surface of a page.
#[derive(Clone, Debug)]
pub struct PdfLayer {
    /// Display label, also the optional-content group's name.
    pub name: String,
    /// Position of the layer on its page.
    pub index: usize,
    /// Content operations, in the order they were added.
    pub operations: Vec<Operation>,
    /// Resources the operations refer to, keyed by `(index, position)`.
    pub resources: Vec<Resource>,
}

/// The operands of a colour operator.
pub open spec fn color_operands(c: Color) -> Seq<OperandView> {
    spec_color(c).map_values(|n: Num| OperandView::Real(n))
}

/// `layer` after `ops` were appended to `old_layer`, with resources, name
/// and index kept.
pub open spec fn appended(old_layer: PdfLayer, layer: PdfLayer, ops: Seq<OpView>) -> bool {
    &&& ops_view(layer.operations@) == ops_view(old_layer.operations@) + ops
    &&& layer.resources@ == old_layer.resources@
    &&& layer.name == old_layer.name
    &&& layer.index == old_layer.index
}

impl PdfLayer {
    /// An empty layer.
    pub fn new(name: String, index: usize) -> (r: PdfLayer)
        ensures
            r.name == name,
            r.index == index,
            r.operations@.len() == 0,
            r.resources@.len() == 0,
    {
        PdfLayer { name, index, operations: Vec::new(), resources: Vec::new() }
    }

    /// The key under which the next resource will be registered.
    pub open spec fn next_key(self) -> ResourceKey {
        ResourceKey { layer: self.index, index: self.resources@.len() as usize }
    }

    /// Appends one operation.
    pub fn add_op(&mut self, op: Operation)
        ensures
            appended(*old(self), *final(self), seq![op@]),
    {
        self.operations.push(op);
        proof {
            assert(ops_view(final(self).operations@) =~= ops_view(old(self).operations@) + seq![op@]);
        }
    }

    /// Appends operations in order.
    pub fn add_ops(&mut self, ops: Vec<Operation>)
        ensures
            appended(*old(self), *final(self), ops_view(ops@)),
    {
        let ghost before = self.operations@;
        let mut ops = ops;
        let ghost added = ops@;
        self.operations.append(&mut ops);
        proof {
            assert(ops_view(self.operations@) =~= ops_view(before) + ops_view(added));
        }
    }

    /// Appends an operation without operands.
    pub fn add_bare_op(&mut self, kind: OpKind)
        ensures
            appended(*old(self), *final(self), seq![bare(kind)]),
    {
        let op = Operation::new(kind, Vec::new());
        proof {
            assert(op@.operands =~= Seq::<OperandView>::empty());
        }
        self.add_op(op);
    }

    /// Saves the graphics state (`q`).
    pub fn save_graphics_state(&mut self)
        ensures
            appended(*old(self), *final(self), seq![bare(OpKind::SaveState)]),
    {
        self.add_bare_op(OpKind::SaveState);
    }

    /// Restores the graphics state (`Q`).
    pub fn restore_graphics_state(&mut self)
        ensures
            appended(*old(self), *final(self), seq![bare(OpKind::RestoreState)]),
    {
        self.add_bare_op(OpKind::RestoreState);
    }

    /// Sets the fill colour (`rg`).
    pub fn set_fill_color(&mut self, c: Color)
        ensures
            appended(*old(self), *final(self), seq![OpView { kind: OpKind::FillColorRgb, operands: color_operands(c) }]),
    {
        let op = Operation::new(OpKind::FillColorRgb, color_operands_of(c));
        self.add_op(op);
    }

    /// Sets the stroke colour (`RG`).
    pub fn set_outline_color(&mut self, c: Color)
        ensures
            appended(*old(self), *final(self), seq![OpView { kind: OpKind::StrokeColorRgb, operands: color_operands(c) }]),
    {
        let op = Operation::new(OpKind::StrokeColorRgb, color_operands_of(c));
        self.add_op(op);
    }

    /// Sets the stroke width (`w`).
    pub fn set_outline_thickness(&mut self, width: Num)
        ensures
            appended(*old(self), *final(self), seq![OpView { kind: OpKind::LineWidth, operands: seq![OperandView::Real(width)] }]),
    {
        let op = Operation::new(OpKind::LineWidth, vec![Operand::Real(width)]);
        proof {
            assert(op@.operands =~= seq![OperandView::Real(width)]);
        }
        self.add_op(op);
    }

    /// Sets the line cap (`J`).
    pub fn set_line_cap_style(&mut self, cap: LineCapStyle)
        ensures
            appended(*old(self), *final(self), seq![OpView { kind: OpKind::LineCap, operands: seq![OperandView::Integer(cap.spec_code())] }]),
    {
        let op = Operation::new(OpKind::LineCap, vec![Operand::Integer(cap.code())]);
        proof {
            assert(op@.operands =~= seq![OperandView::Integer(cap.spec_code())]);
        }
        self.add_op(op);
    }

    /// Registers a resource and returns its key.
    pub fn add_resource(&mut self, res: Resource) -> (r: ResourceKey)
        ensures
            r == old(self).next_key(),
            final(self).resources@ == old(self).resources@.push(res),
            final(self).operations@ == old(self).operations@,
            final(self).name == old(self).name,
            final(self).index == old(self).index,
    {
        let key = ResourceKey { layer: self.index, index: self.resources.len() };
        self.resources.push(res);
        key
    }

    /// Sets the fill alpha: registers a graphics-state dictionary that holds
    /// it, and selects that dictionary (`gs`).
    pub fn set_fill_alpha(&mut self, alpha: Num)
        ensures
            final(self).resources@ == old(self).resources@.push(Resource::ExtGState { fill_alpha: alpha }),
            ops_view(final(self).operations@) == ops_view(old(self).operations@).push(
                OpView { kind: OpKind::SetGraphicsState, operands: seq![OperandView::Resource(old(self).next_key())] },
            ),
            final(self).name == old(self).name,
            final(self).index == old(self).index,
    {
        let key = self.add_resource(Resource::ExtGState { fill_alpha: alpha });
        let op = Operation::new(OpKind::SetGraphicsState, vec![Operand::Resource(key)]);
        proof {
            assert(op@.operands =~= seq![OperandView::Resource(key)]);
        }
        self.add_op(op);
        proof {
            assert(seq![op@] =~= seq![OpView { kind: OpKind::SetGraphicsState, operands: seq![OperandView::Resource(key)] }]);
        }
    }
}

/// The operands of a colour operator.
pub fn color_operands_of(c: Color) -> (r: Vec<Operand>)
    ensures
        r@.map_values(|o: Operand| o@) == color_operands(c),
{
    let comps = color(c);
    let r = vec![Operand::Real(comps[0]), Operand::Real(comps[1]), Operand::Real(comps[2])];
    proof {
        assert(r@.map_values(|o: Operand| o@) =~= color_operands(c));
    }
    r
}

/// A page: its size and its layers, painted in order.
#[derive(Clone, Debug)]
pub struct PdfPage {
    /// Position of the page in its document.
    pub index: usize,
    pub width: Num,
    pub height: Num,
    pub layers: Vec<PdfLayer>,
}

impl PdfPage {
    /// Every layer knows its own position.
    pub open spec fn wf(self) -> bool {
        forall|i: int| 0 <= i < self.layers@.len() ==> (#[trigger] self.layers@[i]).index == i
    }

    /// A page with one empty layer.
    pub fn new(width: Num, height: Num, layer_name: String, index: usize) -> (r: (PdfPage, PdfLayerIndex))
        ensures
            r.0.wf(),
            r.0.index == index,
            r.0.width == width,
            r.0.height == height,
            r.0.layers@.len() == 1,
            r.0.layers@[0].name == layer_name,
            r.0.layers@[0].operations@.len() == 0,
            r.0.layers@[0].resources@.len() == 0,
            r.1 == PdfLayerIndex(0),
    {
        let layer = PdfLayer::new(layer_name, 0);
        (PdfPage { index, width, height, layers: vec![layer] }, PdfLayerIndex(0))
    }

    /// Adds an empty layer on top and returns its index.
    pub fn add_layer(&mut self, name: String) -> (r: PdfLayerIndex)
        requires
            old(self).wf(),
        ensures
            final(self).wf(),
            r.0 == old(self).layers@.len(),
            final(self).layers@.len() == old(self).layers@.len() + 1,
            final(self).layers@.drop_last() == old(self).layers@,
            final(self).layers@.last().name == name,
            final(self).layers@.last().operations@.len() == 0,
            final(self).layers@.last().resources@.len() == 0,
            final(self).index == old(self).index,
            final(self).width == old(self).width,
            final(self).height == old(self).height,
    {
        let i = self.layers.len();
        self.layers.push(PdfLayer::new(name, i));
        proof {
            assert(final(self).layers@.drop_last() =~= old(self).layers@);
        }
        PdfLayerIndex(i)
    }
}

/// The operations of layers, concatenated in layer order.
pub open spec fn merged_ops(layers: Seq<PdfLayer>) -> Seq<OpView>
    decreases layers.len(),
{
    if layers.len() == 0 {
        Seq::empty()
    } else {
        merged_ops(layers.drop_last()) + ops_view(layers.last().operations@)
    }
}

/// A layer's resources, each under its key.
pub open spec fn keyed_resources(l: PdfLayer) -> Seq<(ResourceKey, Resource)> {
    Seq::new(
        l.resources@.len(),
        |k: int| (ResourceKey { layer: l.index, index: k as usize }, l.resources@[k]),
    )
}

/// The union of the layers' resource tables, in layer order.
pub open spec fn merged_resources(layers: Seq<PdfLayer>) -> Seq<(ResourceKey, Resource)>
    decreases layers.len(),
{
    if layers.len() == 0 {
        Seq::empty()
    } else {
        merged_resources(layers.drop_last()) + keyed_resources(layers.last())
    }
}

/// Merges the layers of a page: their operations concatenated in layer
/// order (painted back to front), and the union of their resources.
pub fn merge_layers(layers: Vec<PdfLayer>) -> (r: (Vec<Operation>, Vec<(ResourceKey, Resource)>))
    ensures
        ops_view(r.0@) == merged_ops(layers@),
        r.1@ == merged_resources(layers@),
{
    let ghost all = layers@;
    let mut layers = layers;
    let mut ops: Vec<Operation> = Vec::new();
    let mut res: Vec<(ResourceKey, Resource)> = Vec::new();
    let total = layers.len();
    let mut i: usize = 0;
    while layers.len() > 0
        invariant
            i + layers@.len() == all.len(),
            all.len() == total,
            layers@ == all.subrange(i as int, all.len() as int),
            ops_view(ops@) == merged_ops(all.subrange(0, i as int)),
            res@ == merged_resources(all.subrange(0, i as int)),
        decreases layers.len(),
    {
        let mut layer = layers.remove(0);
        let ghost l = layer;
        let layer_index = layer.index;
        proof {
            assert(l == all[i as int]);
            assert(all.subrange(0, i + 1).drop_last() =~= all.subrange(0, i as int));
            assert(layers@ =~= all.subrange(i + 1, all.len() as int));
        }
        let ghost before = ops@;
        ops.append(&mut layer.operations);
        proof {
            assert(ops_view(ops@) =~= ops_view(before) + ops_view(l.operations@));
        }
        let ghost res_before = res@;
        let mut k: usize = 0;
        let n = layer.resources.len();
        let mut rest = layer.resources;
        while rest.len() > 0
            invariant
                k + rest@.len() == n,
                n == l.resources@.len(),
                layer_index == l.index,
                rest@ == l.resources@.subrange(k as int, n as int),
                res@ == res_before + keyed_resources(l).subrange(0, k as int),
            decreases rest.len(),
        {
            let item = rest.remove(0);
            proof {
                assert(item == l.resources@[k as int]);
                assert(rest@ =~= l.resources@.subrange(k + 1, n as int));
            }
            let ghost res_prev = res@;
            let entry = (ResourceKey { layer: layer_index, index: k }, item);
            proof {
                let ks = keyed_resources(l);
                assert(ks[k as int].0 == entry.0);
                assert(ks[k as int].1 == entry.1);
                assert(ks[k as int] == entry);
            }
            res.push(entry);
            proof {
                let ks = keyed_resources(l);
                assert(ks.subrange(0, k + 1) =~= ks.subrange(0, k as int).push(ks[k as int]));
                assert(res@ == res_prev.push(ks[k as int]));
                assert(keyed_resources(l)[k as int] == (ResourceKey { layer: l.index, index: k }, item));
                assert(res@ =~= res_before + keyed_resources(l).subrange(0, k + 1));
            }
            k = k + 1;
        }
        proof {
            assert(keyed_resources(l).subrange(0, n as int) =~= keyed_resources(l));
        }
        i = i + 1;
    }
    proof {
        assert(all.subrange(0, all.len() as int) =~= all);
    }
    (ops, res)
}

} // verus!
