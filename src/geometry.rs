//! Plain value types shared by the renderer and the document assembler:
//! fixed-point numbers, points, affine transforms, colours and line caps.

use vstd::prelude::*;

verus! {

/// How many units of a `Num` make one.
pub const NUM_ONE: i64 = 1_000_000;

/// A real number held as a whole count of millionths.
#[derive(Copy, Clone, Debug, PartialEq, Eq, Structural)]
pub struct Num(pub i64);

impl Num {
    /// The value zero.
    pub fn zero() -> (r: Num)
        ensures
            r.0 == 0,
    {
        Num(0)
    }

    /// The value one.
    pub fn one() -> (r: Num)
        ensures
            r.0 == NUM_ONE,
    {
        Num(NUM_ONE)
    }

    /// A whole number.
    pub fn from_int(v: i32) -> (r: Num)
        ensures
            r.0 == v * NUM_ONE,
    {
        Num(v as i64 * NUM_ONE)
    }

    /// The negated value, saturating at the top of the range.
    pub fn neg(self) -> (r: Num)
        ensures
            r == self.spec_neg(),
    {
        if self.0 == i64::MIN {
            Num(i64::MAX)
        } else {
            Num(-self.0)
        }
    }

    pub open spec fn spec_neg(self) -> Num {
        if self.0 == i64::MIN {
            Num(i64::MAX)
        } else {
            Num((-self.0) as i64)
        }
    }
}

/// Integer division that rounds toward zero, as Rust's `/` does.
pub open spec fn div_trunc(a: int, b: int) -> int
    recommends
        b > 0,
{
    if a >= 0 {
        a / b
    } else {
        -((-a) / b)
    }
}

/// The whole part of a number, rounded toward zero (as `f64 as i64` does).
pub fn num_to_int(v: Num) -> (r: i64)
    ensures
        r == div_trunc(v.0 as int, NUM_ONE as int),
{
    let a: i128 = v.0 as i128;
    let q: i128 = if a >= 0 {
        a / (NUM_ONE as i128)
    } else {
        -((-a) / (NUM_ONE as i128))
    };
    q as i64
}

/// A point on the page.
#[derive(Copy, Clone, Debug, PartialEq, Eq, Structural)]
pub struct Point {
    pub x: Num,
    pub y: Num,
}

impl Point {
    /// A point from its two coordinates.
    pub fn new(x: Num, y: Num) -> (r: Point)
        ensures
            r.x == x,
            r.y == y,
    {
        Point { x, y }
    }
}

/// An affine transform `[a b c d e f]`, applied as `p' = p · M`.
#[derive(Copy, Clone, Debug, PartialEq, Eq, Structural)]
pub struct Transform {
    pub a: Num,
    pub b: Num,
    pub c: Num,
    pub d: Num,
    pub e: Num,
    pub f: Num,
}

impl Transform {
    /// The identity transform.
    pub fn identity() -> (r: Transform)
        ensures
            r == Transform::spec_identity(),
    {
        Transform { a: Num(NUM_ONE), b: Num(0), c: Num(0), d: Num(NUM_ONE), e: Num(0), f: Num(0) }
    }

    pub open spec fn spec_identity() -> Transform {
        Transform { a: Num(NUM_ONE), b: Num(0), c: Num(0), d: Num(NUM_ONE), e: Num(0), f: Num(0) }
    }

    /// A pure translation by `(e, f)`.
    pub open spec fn spec_translation(e: Num, f: Num) -> Transform {
        Transform { a: Num(NUM_ONE), b: Num(0), c: Num(0), d: Num(NUM_ONE), e, f }
    }
}

/// An 8-bit RGB colour.
#[derive(Copy, Clone, Debug, PartialEq, Eq, Structural)]
pub struct Color {
    pub red: u8,
    pub green: u8,
    pub blue: u8,
}

/// An 8-bit channel as a number in `[0, 1]`: the channel divided by 255,
/// rounded down to a millionth.
pub open spec fn spec_channel(c: u8) -> Num {
    Num(((c as int) * (NUM_ONE as int) / 255) as i64)
}

/// Normalises an 8-bit channel to `[0, 1]`.
pub fn channel(c: u8) -> (r: Num)
    ensures
        r == spec_channel(c),
        0 <= r.0 <= NUM_ONE,
{
    Num((c as i64) * NUM_ONE / 255)
}

/// The shape drawn at the open ends of a stroked line.
#[derive(Copy, Clone, Debug, PartialEq, Eq, Structural)]
pub enum LineCapStyle {
    Butt,
    Round,
    ProjectingSquare,
}

impl LineCapStyle {
    /// The integer the content stream uses for this cap.
    pub open spec fn spec_code(self) -> i64 {
        match self {
            LineCapStyle::Butt => 0,
            LineCapStyle::Round => 1,
            LineCapStyle::ProjectingSquare => 2,
        }
    }

    /// The integer the content stream uses for this cap.
    pub fn code(self) -> (r: i64)
        ensures
            r == self.spec_code(),
    {
        match self {
            LineCapStyle::Butt => 0,
            LineCapStyle::Round => 1,
            LineCapStyle::ProjectingSquare => 2,
        }
    }
}

} // verus!
