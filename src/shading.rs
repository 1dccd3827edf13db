//! Builds the axial shading that paints a linear gradient: one two-colour
//! sub-function per pair of neighbouring stops, stitched over `[0, 1]`.

use vstd::prelude::*;
use crate::geometry::{Num, Color, Transform, channel, spec_channel};

verus! {

/// One stop of a gradient: an offset in `[0, 1]` and a colour.
#[derive(Copy, Clone, Debug, PartialEq, Eq, Structural)]
pub struct GradientStop {
    pub offset: Num,
    pub color: Color,
}

/// A linear gradient from `(x1, y1)` to `(x2, y2)`, with its stops in order.
#[derive(Clone, Debug)]
pub struct LinearGradient {
    pub x1: Num,
    pub y1: Num,
    pub x2: Num,
    pub y2: Num,
    pub transform: Transform,
    pub stops: Vec<GradientStop>,
}

/// A two-colour linear interpolation over the domain `[0, 1]` (exponent 1).
#[derive(Clone, Debug)]
pub struct ExponentialFunction {
    pub c0: Vec<Num>,
    pub c1: Vec<Num>,
}

/// Sub-functions stitched over the domain `[0, 1]`.
#[derive(Clone, Debug)]
pub struct StitchingFunction {
    pub functions: Vec<ExponentialFunction>,
    pub bounds: Vec<Num>,
    pub encode: Vec<i64>,
}

/// An axial shading in RGB, extended past both ends of its axis.
#[derive(Clone, Debug)]
pub struct AxialShading {
    /// `x0 y0 x1 y1`
    pub coords: Vec<Num>,
    pub function: StitchingFunction,
}

/// The three channels of a colour, each normalised to `[0, 1]`.
pub open spec fn spec_color(c: Color) -> Seq<Num> {
    seq![spec_channel(c.red), spec_channel(c.green), spec_channel(c.blue)]
}

/// Normalises each channel of a colour to `[0, 1]`.
pub fn color(c: Color) -> (r: Vec<Num>)
    ensures
        r@ == spec_color(c),
{
    vec![channel(c.red), channel(c.green), channel(c.blue)]
}

/// How many sub-functions `n` stops give.
pub open spec fn sub_function_count(n: nat) -> nat {
    if n >= 2 {
        (n - 1) as nat
    } else {
        0
    }
}

/// The interior offsets: every stop's offset but the first and the last.
pub open spec fn spec_bounds(stops: Seq<GradientStop>) -> Seq<Num> {
    if stops.len() >= 2 {
        stops.subrange(1, stops.len() - 1).map_values(|s: GradientStop| s.offset)
    } else {
        Seq::empty()
    }
}

/// One `0, 1` pair per sub-function.
pub open spec fn spec_encode(n: nat) -> Seq<i64> {
    Seq::new(2 * sub_function_count(n), |i: int| (i % 2) as i64)
}

/// `f` interpolates from the colour of stop `a` to that of stop `b`.
pub open spec fn interpolates(f: ExponentialFunction, a: GradientStop, b: GradientStop) -> bool {
    &&& f.c0@ == spec_color(a.color)
    &&& f.c1@ == spec_color(b.color)
}

/// `f` is the stitched function of the given stops.
pub open spec fn stitches(f: StitchingFunction, stops: Seq<GradientStop>) -> bool {
    &&& f.functions@.len() == sub_function_count(stops.len())
    &&& forall|i: int|
        0 <= i < f.functions@.len() ==> #[trigger] interpolates(
            f.functions@[i],
            stops[i],
            stops[i + 1],
        )
    &&& f.bounds@ == spec_bounds(stops)
    &&& f.encode@ == spec_encode(stops.len())
}

/// `s` is the axial shading of `lg`.
pub open spec fn shading_of(s: AxialShading, lg: LinearGradient) -> bool {
    &&& s.coords@ == seq![lg.x1, lg.y1, lg.x2, lg.y2]
    &&& stitches(s.function, lg.stops@)
}

/// Builds the axial shading of a linear gradient.
pub fn linear_gradient_shading(lg: &LinearGradient) -> (r: AxialShading)
    ensures
        shading_of(r, *lg),
        lg.stops@.len() >= 2 ==> {
            &&& r.function.functions@.len() == lg.stops@.len() - 1
            &&& r.function.bounds@.len() == lg.stops@.len() - 2
            &&& r.function.encode@.len() == 2 * (lg.stops@.len() - 1)
            &&& forall|i: int|
                0 <= i < r.function.encode@.len() ==> #[trigger] r.function.encode@[i] == i % 2
        },
        lg.stops@.len() < 2 ==> {
            &&& r.function.functions@.len() == 0
            &&& r.function.bounds@.len() == 0
            &&& r.function.encode@.len() == 0
        },
{
    let stops = &lg.stops;
    let n = stops.len();
    let mut functions: Vec<ExponentialFunction> = Vec::new();
    let mut bounds: Vec<Num> = Vec::new();
    let mut encode: Vec<i64> = Vec::new();
    if n >= 2 {
        let mut i: usize = 0;
        while i + 1 < n
            invariant
                n == stops@.len(),
                n >= 2,
                i + 1 <= n,
                functions@.len() == i,
                forall|k: int|
                    0 <= k < i ==> #[trigger] interpolates(functions@[k], stops@[k], stops@[k + 1]),
                encode@ =~= Seq::new(2 * i as nat, |j: int| (j % 2) as i64),
            decreases n - i,
        {
            functions.push(ExponentialFunction { c0: color(stops[i].color), c1: color(stops[i + 1].color) });
            encode.push(0);
            encode.push(1);
            i = i + 1;
        }
        let mut j: usize = 1;
        while j + 1 < n
            invariant
                n == stops@.len(),
                n >= 2,
                1 <= j <= n - 1,
                bounds@ =~= stops@.subrange(1, j as int).map_values(|s: GradientStop| s.offset),
            decreases n - j,
        {
            bounds.push(stops[j].offset);
            j = j + 1;
        }
    }
    proof {
        assert(encode@ =~= spec_encode(n as nat));
        assert(bounds@ =~= spec_bounds(stops@));
    }
    AxialShading {
        coords: vec![lg.x1, lg.y1, lg.x2, lg.y2],
        function: StitchingFunction { functions, bounds, encode },
    }
}

} // verus!
