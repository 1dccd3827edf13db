//! Identifier generation and the points of common shapes.

use vstd::prelude::*;
use crate::geometry::{Num, Point, NUM_ONE, div_trunc};

verus! {

/// Relies on `String::push`, which appends one character to the end.
pub assume_specification[ String::push ](s: &mut String, ch: char)
    ensures
        final(s)@ == old(s)@.push(ch),
;

/// The seed every generator starts from.
pub const INITIAL_SEED: u64 = 2100;

/// How far the seed moves on each draw.
pub const SEED_STEP: u64 = 21;

/// A xorshift generator of identifiers. Not cryptographically secure: it
/// only has to make collisions unlikely.
#[derive(Copy, Clone, Debug, PartialEq, Eq, Structural)]
pub struct IdGenerator {
    pub seed: u64,
}

/// The xorshift step applied to a seed.
pub open spec fn spec_scramble(x: u64) -> u64 {
    let a = x ^ ((x << 21u64) as u64);
    let b = a ^ (a >> 35u64);
    b ^ ((b << 4u64) as u64)
}

/// The seed after one draw.
pub open spec fn spec_next_seed(s: u64) -> u64 {
    ((s as int + SEED_STEP as int) % 0x1_0000_0000_0000_0000) as u64
}

/// The letter that stands for a decimal digit: `0` is `A`, `9` is `J`.
pub open spec fn spec_digit_letter(d: u8) -> char {
    ((65 + d) as u8) as char
}

/// A letter from `A` to `J`.
pub open spec fn is_id_letter(c: char) -> bool {
    'A' <= c && c <= 'J'
}

impl IdGenerator {
    /// A generator at the initial seed.
    pub fn new() -> (r: IdGenerator)
        ensures
            r.seed == INITIAL_SEED,
    {
        IdGenerator { seed: INITIAL_SEED }
    }

    /// A generator at a given seed.
    pub fn with_seed(seed: u64) -> (r: IdGenerator)
        ensures
            r.seed == seed,
    {
        IdGenerator { seed }
    }

    /// Draws a pseudo-random number and advances the seed.
    pub fn rand(&mut self) -> (r: u64)
        ensures
            r == spec_scramble(old(self).seed),
            final(self).seed == spec_next_seed(old(self).seed),
    {
        let mut x = self.seed;
        self.seed = self.seed.wrapping_add(SEED_STEP);
        x = x ^ (x << 21u64);
        x = x ^ (x >> 35u64);
        x = x ^ (x << 4u64);
        x
    }

    /// A string of 32 letters from `A` to `J`: the decimal digits of
    /// successive draws, each digit `d` written as the letter `d` places
    /// after `A`, cut at 32 letters. The seed moves on by one step per draw.
    pub fn random_character_string_32(&mut self) -> (r: String)
        ensures
            r@ == id_chars(old(self).seed, 0),
            final(self).seed == seed_after_id(old(self).seed, 0),
            r@.len() == 32,
            forall|i: int| 0 <= i < 32 ==> is_id_letter(#[trigger] r@[i]),
    {
        let ghost seed0 = self.seed;
        let mut out = String::new();
        let mut count: usize = 0;
        proof {
            assert(out@ + id_chars(self.seed, 0) =~= id_chars(seed0, 0));
        }
        while count < 32
            invariant
                count <= 32,
                out@.len() == count,
                forall|i: int| 0 <= i < count ==> is_id_letter(#[trigger] out@[i]),
                out@ + id_chars(self.seed, count as nat) == id_chars(seed0, 0),
                seed_after_id(self.seed, count as nat) == seed_after_id(seed0, 0),
            decreases 32 - count,
        {
            let ghost s = self.seed;
            let n = self.rand();
            let digits = decimal_digits(n);
            let ghost letters = digit_letters(digits@);
            proof {
                lemma_decimal_small(n as nat);
            }
            let ghost c0 = count;
            let ghost out0 = out@;
            let mut k: usize = 0;
            while k < digits.len() && count < 32
                invariant
                    count <= 32,
                    k <= digits@.len(),
                    out@.len() == count,
                    forall|i: int| 0 <= i < count ==> is_id_letter(#[trigger] out@[i]),
                    forall|i: int| 0 <= i < digits@.len() ==> #[trigger] digits@[i] < 10,
                    digits@.len() >= 1,
                    count == c0 + k,
                    c0 < 32,
                    letters == digit_letters(digits@),
                    out@ == out0 + letters.take(k as int),
                decreases digits.len() - k,
            {
                let c = u8_to_char(digits[k]);
                out.push(c);
                proof {
                    assert(letters.take(k + 1) =~= letters.take(k as int).push(letters[k as int]));
                }
                count = count + 1;
                k = k + 1;
            }
            proof {
                assert(letters == draw_letters(s));
                assert(next_have(c0 as nat, letters.len()) == count);
                assert(id_chars(s, c0 as nat) == letters.take(k as int) + id_chars(self.seed, count as nat));
                assert(out@ + id_chars(self.seed, count as nat) =~= out0 + id_chars(s, c0 as nat));
            }
        }
        proof {
            assert(out@ + id_chars(self.seed, 32) =~= out@);
        }
        out
    }
}

/// The letters for a sequence of digits.
pub open spec fn digit_letters(d: Seq<u8>) -> Seq<char> {
    d.map_values(|x: u8| spec_digit_letter(x))
}

/// The letters for the digits of the draw at `seed`.
pub open spec fn draw_letters(seed: u64) -> Seq<char> {
    digit_letters(spec_decimal(spec_scramble(seed) as nat))
}

/// How many letters an identifier holds after `more`, at most 32.
pub open spec fn next_have(have: nat, more: nat) -> nat {
    if have + more >= 32 {
        32
    } else {
        have + more
    }
}

/// The letters an identifier still takes when it holds `have` of its 32,
/// drawing from `seed` on.
pub open spec fn id_chars(seed: u64, have: nat) -> Seq<char>
    decreases 32 - have,
{
    let d = draw_letters(seed);
    if have >= 32 || d.len() == 0 {
        Seq::empty()
    } else {
        d.take(if d.len() <= 32 - have { d.len() as int } else { 32 - have }) + id_chars(
            spec_next_seed(seed),
            next_have(have, d.len()),
        )
    }
}

/// The seed once an identifier holding `have` letters is complete.
pub open spec fn seed_after_id(seed: u64, have: nat) -> u64
    decreases 32 - have,
{
    let d = draw_letters(seed);
    if have >= 32 || d.len() == 0 {
        seed
    } else {
        seed_after_id(spec_next_seed(seed), next_have(have, d.len()))
    }
}

/// The letter for a digit, `d` places after `A`.
fn u8_to_char(d: u8) -> (r: char)
    requires
        d <= 190,
    ensures
        r == spec_digit_letter(d),
        d < 10 ==> is_id_letter(r),
{
    ((65u8 + d) as char)
}

/// The decimal representation of `n`, most significant digit first; `0` is
/// the one digit `0`.
pub open spec fn spec_decimal(n: nat) -> Seq<u8>
    decreases n,
{
    if n < 10 {
        seq![n as u8]
    } else {
        spec_decimal(n / 10).push((n % 10) as u8)
    }
}

proof fn lemma_decimal_small(n: nat)
    ensures
        spec_decimal(n).len() >= 1,
        forall|i: int| 0 <= i < spec_decimal(n).len() ==> #[trigger] spec_decimal(n)[i] < 10,
    decreases n,
{
    if n >= 10 {
        lemma_decimal_small(n / 10);
    }
}

/// The decimal digits of a number, most significant first.
pub fn decimal_digits(n: u64) -> (r: Vec<u8>)
    ensures
        r@ == spec_decimal(n as nat),
    decreases n,
{
    if n < 10 {
        let r = vec![n as u8];
        proof {
            assert(r@ =~= spec_decimal(n as nat));
        }
        r
    } else {
        let mut r = decimal_digits(n / 10);
        r.push((n % 10) as u8);
        r
    }
}

/// The circle constant: control points sit this far along the tangent, in
/// millionths of the radius.
pub const CIRCLE_KAPPA: i64 = 551915;

/// The sum of two numbers fits.
pub open spec fn fits(v: int) -> bool {
    i64::MIN <= v <= i64::MAX
}

/// A point offset by `(ox, oy)`.
pub open spec fn at(x: int, y: int, ox: Num, oy: Num) -> Point {
    Point { x: Num((x + ox.0) as i64), y: Num((y + oy.0) as i64) }
}

/// The sixteen points of four cubic curves approximating a circle: per
/// quarter, a start, two control points and an end (the end is the one
/// point not marked as a control point).
pub open spec fn spec_circle_points(radius: Num, ox: Num, oy: Num) -> Seq<(Point, bool)> {
    let r = radius.0 as int;
    let k = div_trunc(r * CIRCLE_KAPPA, NUM_ONE as int);
    let nr = -r;
    let nk = -k;
    seq![
        (at(0, r, ox, oy), true), (at(k, r, ox, oy), true), (at(r, k, ox, oy), true), (at(r, 0, ox, oy), false),
        (at(r, 0, ox, oy), true), (at(r, nk, ox, oy), true), (at(k, nr, ox, oy), true), (at(0, nr, ox, oy), false),
        (at(0, nr, ox, oy), true), (at(nk, nr, ox, oy), true), (at(nr, nk, ox, oy), true), (at(nr, 0, ox, oy), false),
        (at(nr, 0, ox, oy), true), (at(nr, k, ox, oy), true), (at(nk, r, ox, oy), true), (at(0, r, ox, oy), false),
    ]
}

fn point_at(x: i64, y: i64, ox: Num, oy: Num) -> (r: Point)
    requires
        fits(x + ox.0),
        fits(y + oy.0),
    ensures
        r == at(x as int, y as int, ox, oy),
{
    Point { x: Num(x + ox.0), y: Num(y + oy.0) }
}

/// The points of a circle of the given radius around `(offset_x, offset_y)`.
pub fn calculate_points_for_circle(radius: Num, offset_x: Num, offset_y: Num) -> (r: Vec<(Point, bool)>)
    requires
        radius.0 > i64::MIN,
        fits(offset_x.0 + radius.0),
        fits(offset_x.0 - radius.0),
        fits(offset_y.0 + radius.0),
        fits(offset_y.0 - radius.0),
    ensures
        r@ == spec_circle_points(radius, offset_x, offset_y),
{
    let r = radius.0;
    let prod: i128 = (r as i128) * (CIRCLE_KAPPA as i128);
    let kq: i128 = if prod >= 0 {
        prod / (NUM_ONE as i128)
    } else {
        -((-prod) / (NUM_ONE as i128))
    };
    proof {
        let rr = r as int;
        if rr >= 0 {
            assert(rr * CIRCLE_KAPPA <= rr * NUM_ONE) by (nonlinear_arith)
                requires rr >= 0;
            assert((rr * CIRCLE_KAPPA) / (NUM_ONE as int) <= rr) by (nonlinear_arith)
                requires rr >= 0, rr * CIRCLE_KAPPA <= rr * NUM_ONE;
        } else {
            assert((-rr) * CIRCLE_KAPPA <= (-rr) * NUM_ONE) by (nonlinear_arith)
                requires rr < 0;
            assert(((-rr) * CIRCLE_KAPPA) / (NUM_ONE as int) <= -rr) by (nonlinear_arith)
                requires rr < 0, (-rr) * CIRCLE_KAPPA <= (-rr) * NUM_ONE;
        }
    }
    let k = kq as i64;
    let nr = -r;
    let nk = -k;
    let (ox, oy) = (offset_x, offset_y);
    let pts = vec![
        (point_at(0, r, ox, oy), true), (point_at(k, r, ox, oy), true), (point_at(r, k, ox, oy), true), (point_at(r, 0, ox, oy), false),
        (point_at(r, 0, ox, oy), true), (point_at(r, nk, ox, oy), true), (point_at(k, nr, ox, oy), true), (point_at(0, nr, ox, oy), false),
        (point_at(0, nr, ox, oy), true), (point_at(nk, nr, ox, oy), true), (point_at(nr, nk, ox, oy), true), (point_at(nr, 0, ox, oy), false),
        (point_at(nr, 0, ox, oy), true), (point_at(nr, k, ox, oy), true), (point_at(nk, r, ox, oy), true), (point_at(0, r, ox, oy), false),
    ];
    proof {
        assert(pts@ =~= spec_circle_points(radius, offset_x, offset_y));
    }
    pts
}

/// The corners of a rectangle of the given size centred on
/// `(offset_x, offset_y)`: top left, top right, bottom right, bottom left.
/// Half a size is rounded toward zero.
pub open spec fn spec_rect_points(sx: Num, sy: Num, ox: Num, oy: Num) -> Seq<(Point, bool)> {
    let hx = div_trunc(sx.0 as int, 2);
    let hy = div_trunc(sy.0 as int, 2);
    let nhx = -hx;
    let nhy = -hy;
    seq![
        (at(nhx, hy, ox, oy), false),
        (at(hx, hy, ox, oy), false),
        (at(hx, nhy, ox, oy), false),
        (at(nhx, nhy, ox, oy), false),
    ]
}

fn half(v: i64) -> (r: i64)
    ensures
        r == div_trunc(v as int, 2),
{
    if v >= 0 {
        v / 2
    } else {
        let w: i128 = v as i128;
        (-((-w) / 2)) as i64
    }
}

/// The corners of a rectangle of the given size centred on
/// `(offset_x, offset_y)`.
pub fn calculate_points_for_rect(scale_x: Num, scale_y: Num, offset_x: Num, offset_y: Num) -> (r: Vec<(Point, bool)>)
    requires
        fits(offset_x.0 + div_trunc(scale_x.0 as int, 2)),
        fits(offset_x.0 - div_trunc(scale_x.0 as int, 2)),
        fits(offset_y.0 + div_trunc(scale_y.0 as int, 2)),
        fits(offset_y.0 - div_trunc(scale_y.0 as int, 2)),
    ensures
        r@ == spec_rect_points(scale_x, scale_y, offset_x, offset_y),
{
    let hx: i64 = half(scale_x.0);
    let hy: i64 = half(scale_y.0);
    let nhx = -hx;
    let nhy = -hy;
    let pts = vec![
        (point_at(nhx, hy, offset_x, offset_y), false),
        (point_at(hx, hy, offset_x, offset_y), false),
        (point_at(hx, nhy, offset_x, offset_y), false),
        (point_at(nhx, nhy, offset_x, offset_y), false),
    ];
    proof {
        assert(pts@ =~= spec_rect_points(scale_x, scale_y, offset_x, offset_y));
    }
    pts
}

/// Each glyph id as two bytes, high byte first.
pub open spec fn spec_glyph_bytes(gids: Seq<u16>) -> Seq<u8>
    decreases gids.len(),
{
    if gids.len() == 0 {
        Seq::empty()
    } else {
        spec_glyph_bytes(gids.drop_last()) + seq![(gids.last() / 256) as u8, (gids.last() % 256) as u8]
    }
}

/// Encodes glyph ids for a text-showing operator: each id as two bytes,
/// high byte first.
pub fn text_bytes_for_glyphs(glyph_ids: &Vec<u16>) -> (r: Vec<u8>)
    ensures
        r@ == spec_glyph_bytes(glyph_ids@),
        r@.len() == 2 * glyph_ids@.len(),
{
    let mut out: Vec<u8> = Vec::new();
    let mut i: usize = 0;
    while i < glyph_ids.len()
        invariant
            i <= glyph_ids@.len(),
            out@ == spec_glyph_bytes(glyph_ids@.take(i as int)),
            out@.len() == 2 * i,
        decreases glyph_ids.len() - i,
    {
        let g = glyph_ids[i];
        out.push((g / 256) as u8);
        out.push((g % 256) as u8);
        proof {
            assert(glyph_ids@.take(i + 1).drop_last() =~= glyph_ids@.take(i as int));
            assert(out@ =~= spec_glyph_bytes(glyph_ids@.take(i + 1)));
        }
        i = i + 1;
    }
    proof {
        assert(glyph_ids@.take(glyph_ids@.len() as int) =~= glyph_ids@);
    }
    out
}

} // verus!
