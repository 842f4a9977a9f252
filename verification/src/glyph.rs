//! Glyph selection: a ramp of characters for flat regions, and four strokes
//! for edges.

use vstd::prelude::*;
use crate::ratio::{Frac, Ratio};

verus! {

/// The grey level that stands for a luminance of one: grey levels and
/// gradients count in units of `1 / GRAY_ONE`.
pub const GRAY_ONE: u32 = 2_550_000;

/// The number of characters on the ramp.
pub const RAMP_LEN: usize = 12;

/// The ramp, from the sparsest glyph to the densest.
pub open spec fn ramp() -> Seq<char> {
    seq![' ', '.', '-', '=', '+', '*', 'x', '#', '$', '&', 'X', '@']
}

/// The place on the ramp of a luminance: the luminance times the last index,
/// rounded down, and held within the ramp.
pub open spec fn ramp_index(luminance: Frac) -> int {
    let scaled = (luminance.num * (RAMP_LEN - 1)) / luminance.den;
    if scaled < 0 {
        0
    } else if scaled > RAMP_LEN - 1 {
        RAMP_LEN - 1
    } else {
        scaled
    }
}

/// The ramp glyph of a luminance.
pub open spec fn ramp_glyph(luminance: Frac) -> char {
    ramp()[ramp_index(luminance)]
}

/// Whether `c` is one of the four strokes.
pub open spec fn is_stroke(c: char) -> bool {
    c == '\\' || c == '_' || c == '/' || c == '|'
}

/// Whether `c` can stand in a cell: a character of the ramp or a stroke.
pub open spec fn is_glyph(c: char) -> bool {
    is_stroke(c) || ramp().contains(c)
}

/// `n / 2` degrees.
pub open spec fn half_degrees(n: int) -> Frac {
    Frac::new(n, 2)
}

/// The stroke of an angle in degrees.  The bands include both of their ends
/// and are asked in this order, so that an angle on the edge between two
/// bands belongs to the earlier one.
pub open spec fn stroke_of_angle(angle: Frac) -> char {
    if angle.within(half_degrees(45), half_degrees(135)) || angle.within(
        half_degrees(-315),
        half_degrees(-225),
    ) {
        '\\'
    } else if angle.within(half_degrees(135), half_degrees(225)) || angle.within(
        half_degrees(-225),
        half_degrees(-135),
    ) {
        '_'
    } else if angle.within(half_degrees(225), half_degrees(315)) || angle.within(
        half_degrees(-135),
        half_degrees(-45),
    ) {
        '/'
    } else {
        '|'
    }
}

/// The absolute value of a whole number.
pub open spec fn magnitude(n: int) -> int {
    if n < 0 {
        -n
    } else {
        n
    }
}

/// The stroke of a gradient, decided without computing its angle.
///
/// The four strokes do not tell a direction from its opposite, so the stroke
/// depends on twice the angle only, and the vector
/// `(sx² - sy², 2·sx·sy)` points at twice the angle of `(sx, sy)`.  The angle
/// lies in the band from 22.5 to 67.5 degrees, or in the opposite band,
/// exactly when the second component of that vector is at least the
/// magnitude of the first; the two other bands follow by quarter turns.  The
/// bands are asked in the order of [`stroke_of_angle`].  The zero gradient
/// has the angle zero.
pub open spec fn stroke_of_gradient(sx: int, sy: int) -> char {
    let along = sx * sx - sy * sy;
    let across = 2 * (sx * sy);
    if sx == 0 && sy == 0 {
        '|'
    } else if across >= magnitude(along) {
        '\\'
    } else if -along >= magnitude(across) {
        '_'
    } else if -across >= magnitude(along) {
        '/'
    } else {
        '|'
    }
}

/// Whether a gradient, in units of `1 / GRAY_ONE`, marks an edge: its squared
/// length is at least the square of the threshold.
pub open spec fn is_edge_spec(sx: int, sy: int, threshold: Frac) -> bool {
    (sx * sx + sy * sy) * (threshold.den * threshold.den) >= (threshold.num * threshold.num) * (
    GRAY_ONE * GRAY_ONE)
}

/// The character at a place on the ramp.
pub fn ramp_char(index: usize) -> (c: char)
    requires
        index < RAMP_LEN,
    ensures
        c == ramp()[index as int],
{
    let chars = " .-=+*x#$&X@";
    proof {
        reveal_strlit(" .-=+*x#$&X@");
    }
    assert(chars@ =~= ramp());
    chars.get_char(index)
}

/// The ramp glyph of a luminance: zero gives the first character of the ramp,
/// one the last, and a luminance outside of `[0, 1]` the nearer end.
pub fn get_ascii_char(grayscale: Ratio) -> (c: char)
    ensures
        c == ramp_glyph(grayscale@),
        ramp().contains(c),
{
    let num: i32 = grayscale.num();
    let den: u32 = grayscale.den();
    let index: usize = if num <= 0 {
        assert((num * (RAMP_LEN - 1)) / (den as int) <= 0) by (nonlinear_arith)
            requires
                num <= 0,
                den > 0,
        ;
        0
    } else {
        let scaled: i64 = (num as i64) * 11;
        let place: i64 = scaled / (den as i64);
        assert(place >= 0) by (nonlinear_arith)
            requires
                place == (scaled as int) / (den as int),
                scaled >= 0,
                den > 0,
        ;
        if place > 11 {
            11
        } else {
            place as usize
        }
    };
    ramp_char(index)
}

/// The stroke of an angle in degrees.  Every angle has exactly one stroke;
/// an angle outside of the six bands, and so every angle beyond half a turn,
/// has the upright stroke.
pub fn get_sobel_angle_char(sobel_angle: Ratio) -> (c: char)
    ensures
        c == stroke_of_angle(sobel_angle@),
        is_stroke(c),
{
    let a = &sobel_angle;
    if a.within(&Ratio::of(45, 2), &Ratio::of(135, 2)) || a.within(
        &Ratio::of(-315, 2),
        &Ratio::of(-225, 2),
    ) {
        '\\'
    } else if a.within(&Ratio::of(135, 2), &Ratio::of(225, 2)) || a.within(
        &Ratio::of(-225, 2),
        &Ratio::of(-135, 2),
    ) {
        '_'
    } else if a.within(&Ratio::of(225, 2), &Ratio::of(315, 2)) || a.within(
        &Ratio::of(-135, 2),
        &Ratio::of(-45, 2),
    ) {
        '/'
    } else {
        '|'
    }
}

/// The stroke of a gradient.
pub fn get_gradient_char(sx: i32, sy: i32) -> (c: char)
    ensures
        c == stroke_of_gradient(sx as int, sy as int),
        is_stroke(c),
{
    if sx == 0 && sy == 0 {
        return '|';
    }
    proof {
        lemma_square_fits(sx as int, sx as int);
        lemma_square_fits(sy as int, sy as int);
        lemma_square_fits(sx as int, sy as int);
    }
    let x: i128 = sx as i128;
    let y: i128 = sy as i128;
    let along: i128 = x * x - y * y;
    let across: i128 = 2 * (x * y);
    let along_size: i128 = if along < 0 {
        -along
    } else {
        along
    };
    let across_size: i128 = if across < 0 {
        -across
    } else {
        across
    };
    if across >= along_size {
        '\\'
    } else if -along >= across_size {
        '_'
    } else if -across >= along_size {
        '/'
    } else {
        '|'
    }
}

/// Whether a gradient marks an edge under the given threshold.
pub fn is_edge(sx: i32, sy: i32, threshold: &Ratio) -> (edge: bool)
    ensures
        edge == is_edge_spec(sx as int, sy as int, threshold@),
{
    let num: i32 = threshold.num();
    let den: u32 = threshold.den();
    proof {
        lemma_square_fits(sx as int, sx as int);
        lemma_square_fits(sy as int, sy as int);
        lemma_square_fits(num as int, num as int);
    }
    let x: i128 = sx as i128;
    let y: i128 = sy as i128;
    let n: i128 = num as i128;
    assert(x * x >= 0 && y * y >= 0 && n * n >= 0) by (nonlinear_arith);
    assert(den * den <= 0xffff_ffff * 0xffff_ffff) by (nonlinear_arith)
        requires
            0 <= den <= 0xffff_ffff,
    ;
    assert(GRAY_ONE * GRAY_ONE == 6_502_500_000_000) by (nonlinear_arith)
        requires
            GRAY_ONE == 2_550_000,
    ;
    let length: u128 = (x * x + y * y) as u128;
    let n2: u128 = (n * n) as u128;
    let d2: u128 = (den as u128) * (den as u128);
    let one2: u128 = (GRAY_ONE as u128) * (GRAY_ONE as u128);
    assert(length * d2 <= 0x8000_0000_0000_0000 * (0xffff_ffff * 0xffff_ffff))
        by (nonlinear_arith)
        requires
            length <= 0x8000_0000_0000_0000,
            d2 <= 0xffff_ffff * 0xffff_ffff,
    ;
    assert(n2 * one2 <= 0x4000_0000_0000_0000 * 6_502_500_000_000) by (nonlinear_arith)
        requires
            n2 <= 0x4000_0000_0000_0000,
            one2 == 6_502_500_000_000,
    ;
    length * d2 >= n2 * one2
}

/// The product of two 32-bit signed numbers is at most two to the 62nd in
/// magnitude.
proof fn lemma_square_fits(a: int, b: int)
    requires
        -0x8000_0000 <= a <= 0x7fff_ffff,
        -0x8000_0000 <= b <= 0x7fff_ffff,
    ensures
        -0x4000_0000_0000_0000 <= a * b <= 0x4000_0000_0000_0000,
{
    assert(-0x4000_0000_0000_0000 <= a * b <= 0x4000_0000_0000_0000) by (nonlinear_arith)
        requires
            -0x8000_0000 <= a <= 0x7fff_ffff,
            -0x8000_0000 <= b <= 0x7fff_ffff,
    ;
}

/// A luminance of zero has the first glyph of the ramp and a luminance of one
/// the last.
pub proof fn lemma_ramp_ends(den: int)
    requires
        den > 0,
    ensures
        ramp_glyph(Frac::new(0, den)) == ' ',
        ramp_glyph(Frac::new(den, den)) == '@',
{
    assert((0 * (RAMP_LEN - 1)) / den == 0) by (nonlinear_arith)
        requires
            den > 0,
    ;
    assert((den * (RAMP_LEN - 1)) / den == RAMP_LEN - 1) by (nonlinear_arith)
        requires
            den > 0,
    ;
}

/// The ramp is monotonic: a luminance that is not smaller has a place on the
/// ramp that is not earlier.
pub proof fn lemma_ramp_monotonic(darker: Frac, lighter: Frac)
    requires
        darker.wf(),
        lighter.wf(),
        darker.le(lighter),
    ensures
        ramp_index(darker) <= ramp_index(lighter),
{
    let k = RAMP_LEN - 1;
    let p = (darker.num * k) / darker.den;
    let q = (lighter.num * k) / lighter.den;
    assert(p <= q) by (nonlinear_arith)
        requires
            darker.den > 0,
            lighter.den > 0,
            darker.num * lighter.den <= lighter.num * darker.den,
            p == (darker.num * 11) / darker.den,
            q == (lighter.num * 11) / lighter.den,
    ;
}

/// A gradient and its opposite have the same stroke.
pub proof fn lemma_stroke_opposite(sx: int, sy: int)
    ensures
        stroke_of_gradient(-sx, -sy) == stroke_of_gradient(sx, sy),
{
    assert((-sx) * (-sx) == sx * sx) by (nonlinear_arith);
    assert((-sy) * (-sy) == sy * sy) by (nonlinear_arith);
    assert((-sx) * (-sy) == sx * sy) by (nonlinear_arith);
}

/// An angle between zero and half a turn has the stroke of the angle half a
/// turn below it: the bands come in opposite pairs.
pub proof fn lemma_angle_opposite(angle: Frac)
    requires
        angle.wf(),
        angle.within(Frac::whole(0), Frac::whole(180)),
    ensures
        stroke_of_angle(angle) == stroke_of_angle(Frac::new(angle.num - 180 * angle.den, angle.den)),
{
    let below = Frac::new(angle.num - 180 * angle.den, angle.den);
    assert(!angle.within(half_degrees(-315), half_degrees(-225)));
    assert(!angle.within(half_degrees(-225), half_degrees(-135)));
    assert(!angle.within(half_degrees(-135), half_degrees(-45)));
    assert(!below.within(half_degrees(45), half_degrees(135)));
    assert(!below.within(half_degrees(135), half_degrees(225)));
    assert(!below.within(half_degrees(225), half_degrees(315)));
    assert(angle.within(half_degrees(45), half_degrees(135)) == below.within(
        half_degrees(-315),
        half_degrees(-225),
    ));
    assert(angle.within(half_degrees(135), half_degrees(225)) == below.within(
        half_degrees(-225),
        half_degrees(-135),
    ));
    assert(angle.within(half_degrees(225), half_degrees(315)) == below.within(
        half_degrees(-135),
        half_degrees(-45),
    ));
}

/// On the eight directions whose angle is a multiple of 45 degrees, the
/// stroke of the gradient is the stroke of its angle.
pub proof fn lemma_principal_directions(s: int)
    requires
        s > 0,
    ensures
        stroke_of_gradient(s, 0) == stroke_of_angle(Frac::whole(0)),
        stroke_of_gradient(s, s) == stroke_of_angle(Frac::whole(45)),
        stroke_of_gradient(0, s) == stroke_of_angle(Frac::whole(90)),
        stroke_of_gradient(-s, s) == stroke_of_angle(Frac::whole(135)),
        stroke_of_gradient(-s, 0) == stroke_of_angle(Frac::whole(180)),
        stroke_of_gradient(-s, -s) == stroke_of_angle(Frac::whole(-135)),
        stroke_of_gradient(0, -s) == stroke_of_angle(Frac::whole(-90)),
        stroke_of_gradient(s, -s) == stroke_of_angle(Frac::whole(-45)),
        stroke_of_gradient(0, 0) == stroke_of_angle(Frac::whole(0)),
{
    assert(s * s > 0) by (nonlinear_arith)
        requires
            s > 0,
    ;
    assert((-s) * (-s) == s * s) by (nonlinear_arith);
    assert((-s) * s == -(s * s)) by (nonlinear_arith);
    assert(s * (-s) == -(s * s)) by (nonlinear_arith);
    assert(s * 0 == 0 && 0 * s == 0 && (-s) * 0 == 0 && 0 * (-s) == 0 && 0 * 0 == 0)
        by (nonlinear_arith);
}

} // verus!
