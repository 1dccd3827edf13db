//! Content-stream operations, as a layer records them.

use vstd::prelude::*;
use crate::geometry::Num;

verus! {

/// The operators this library emits.
#[derive(Copy, Clone, Debug, PartialEq, Eq, Structural)]
pub enum OpKind {
    /// `q`
    SaveState,
    /// `Q`
    RestoreState,
    /// `cm`
    Transform,
    /// `m`
    MoveTo,
    /// `l`
    LineTo,
    /// `c`
    CurveTo,
    /// `h`
    ClosePath,
    /// `W`
    Clip,
    /// `n`
    EndPath,
    /// `sh`
    PaintShading,
    /// `f`
    Fill,
    /// `b`
    FillStrokeClose,
    /// `s`
    StrokeClose,
    /// `S`
    StrokeOpen,
    /// `d`
    SetDash,
    /// `w`
    LineWidth,
    /// `J`
    LineCap,
    /// `rg`
    FillColorRgb,
    /// `RG`
    StrokeColorRgb,
    /// `gs`
    SetGraphicsState,
}

impl OpKind {
    /// The operator's keyword in content-stream syntax.
    pub open spec fn spec_keyword(self) -> &'static str {
        match self {
            OpKind::SaveState => "q",
            OpKind::RestoreState => "Q",
            OpKind::Transform => "cm",
            OpKind::MoveTo => "m",
            OpKind::LineTo => "l",
            OpKind::CurveTo => "c",
            OpKind::ClosePath => "h",
            OpKind::Clip => "W",
            OpKind::EndPath => "n",
            OpKind::PaintShading => "sh",
            OpKind::Fill => "f",
            OpKind::FillStrokeClose => "b",
            OpKind::StrokeClose => "s",
            OpKind::StrokeOpen => "S",
            OpKind::SetDash => "d",
            OpKind::LineWidth => "w",
            OpKind::LineCap => "J",
            OpKind::FillColorRgb => "rg",
            OpKind::StrokeColorRgb => "RG",
            OpKind::SetGraphicsState => "gs",
        }
    }

    /// The operator's keyword in content-stream syntax.
    pub fn keyword(self) -> (r: &'static str)
        ensures
            r == self.spec_keyword(),
    {
        match self {
            OpKind::SaveState => "q",
            OpKind::RestoreState => "Q",
            OpKind::Transform => "cm",
            OpKind::MoveTo => "m",
            OpKind::LineTo => "l",
            OpKind::CurveTo => "c",
            OpKind::ClosePath => "h",
            OpKind::Clip => "W",
            OpKind::EndPath => "n",
            OpKind::PaintShading => "sh",
            OpKind::Fill => "f",
            OpKind::FillStrokeClose => "b",
            OpKind::StrokeClose => "s",
            OpKind::StrokeOpen => "S",
            OpKind::SetDash => "d",
            OpKind::LineWidth => "w",
            OpKind::LineCap => "J",
            OpKind::FillColorRgb => "rg",
            OpKind::StrokeColorRgb => "RG",
            OpKind::SetGraphicsState => "gs",
        }
    }
}

/// Names a resource: the index of the layer that registered it, and its
/// position in that layer's resource table.
#[derive(Copy, Clone, Debug, PartialEq, Eq, Structural)]
pub struct ResourceKey {
    pub layer: usize,
    pub index: usize,
}

/// An operand of a content-stream operation.
#[derive(Clone, Debug)]
pub enum Operand {
    Integer(i64),
    Real(Num),
    IntegerArray(Vec<i64>),
    Resource(ResourceKey),
}

/// One operator with its operands.
#[derive(Clone, Debug)]
pub struct Operation {
    pub kind: OpKind,
    pub operands: Vec<Operand>,
}

impl Operation {
    /// An operation from its operator and operands.
    pub fn new(kind: OpKind, operands: Vec<Operand>) -> (r: Operation)
        ensures
            r.kind == kind,
            r.operands@ == operands@,
            r@.operands == operands@.map_values(|o: Operand| o@),
    {
        Operation { kind, operands }
    }
}

/// What an operand stands for.
pub enum OperandView {
    Integer(i64),
    Real(Num),
    IntegerArray(Seq<i64>),
    Resource(ResourceKey),
}

impl View for Operand {
    type V = OperandView;

    open spec fn view(&self) -> OperandView {
        match self {
            Operand::Integer(v) => OperandView::Integer(*v),
            Operand::Real(v) => OperandView::Real(*v),
            Operand::IntegerArray(v) => OperandView::IntegerArray(v@),
            Operand::Resource(k) => OperandView::Resource(*k),
        }
    }
}

/// What an operation stands for: its operator and operands.
pub struct OpView {
    pub kind: OpKind,
    pub operands: Seq<OperandView>,
}

impl View for Operation {
    type V = OpView;

    open spec fn view(&self) -> OpView {
        OpView { kind: self.kind, operands: self.operands@.map_values(|o: Operand| o@) }
    }
}

/// The views of a sequence of operations.
pub open spec fn ops_view(ops: Seq<Operation>) -> Seq<OpView> {
    ops.map_values(|o: Operation| o@)
}

/// An operation with no operands.
pub open spec fn bare(kind: OpKind) -> OpView {
    OpView { kind, operands: Seq::empty() }
}

/// What one operation does to the depth of the graphics-state stack.
pub open spec fn depth_delta(op: OpView) -> int {
    match op.kind {
        OpKind::SaveState => 1,
        OpKind::RestoreState => -1,
        _ => 0,
    }
}

/// Saves minus restores over a sequence of operations.
pub open spec fn net_depth(ops: Seq<OpView>) -> int
    decreases ops.len(),
{
    if ops.len() == 0 {
        0
    } else {
        net_depth(ops.drop_last()) + depth_delta(ops.last())
    }
}

/// The stack depth of a concatenation is the sum of the parts' depths.
pub proof fn lemma_net_depth_concat(a: Seq<OpView>, b: Seq<OpView>)
    ensures
        net_depth(a + b) == net_depth(a) + net_depth(b),
    decreases b.len(),
{
    if b.len() == 0 {
        assert(a + b =~= a);
    } else {
        lemma_net_depth_concat(a, b.drop_last());
        assert((a + b).drop_last() =~= a + b.drop_last());
    }
}

} // verus!
