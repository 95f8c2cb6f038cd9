//! The coordinate mapper: projects a device-space pen position into
//! screen space through a clipped rectangular mapping and a 2x2 affine
//! matrix, in exact fixed-point arithmetic.
//!
//! Matrix entries are fixed-point numbers with `FIXED_ONE` as 1.0; the
//! identity matrix is `(FIXED_ONE, 0, 0, FIXED_ONE)`. The mapped position
//! is the nearest integer (ties rounded up) to the exact rational value
//!
//! ```text
//! win_x = (min(max(px - mx, 0), mw) / mw * sw * m0
//!        + min(max(py - my, 0), mh) / mh * sh * m1) / FIXED_ONE
//! ```
//!
//! and symmetrically for `win_y` with `m2`, `m3`. A mapping area of zero
//! width or height would leave this undefined, so such configurations are
//! rejected when loaded and excluded here by precondition.
use vstd::prelude::*;

use vstd::arithmetic::div_mod::{
    lemma_fundamental_div_mod,
    lemma_fundamental_div_mod_converse_div,
    lemma_mod_bound,
};

use crate::area::Area;

verus! {

/// The fixed-point representation of 1.0 in matrix entries.
pub const FIXED_ONE: i64 = 65536;

/// Largest accepted magnitude of a matrix entry (a scale factor of 256).
pub const MATRIX_LIMIT: i64 = 16777216;

/// A row-major 2x2 affine transform with fixed-point entries.
#[derive(PartialEq, Eq, Structural, Clone, Copy, Debug)]
pub struct Matrix {
    pub m0: i64,
    pub m1: i64,
    pub m2: i64,
    pub m3: i64,
}

impl Matrix {
    /// The identity transform.
    pub fn identity() -> (r: Matrix)
        ensures
            r == (Matrix { m0: FIXED_ONE, m1: 0i64, m2: 0i64, m3: FIXED_ONE }),
    {
        Matrix { m0: FIXED_ONE, m1: 0, m2: 0, m3: FIXED_ONE }
    }
}

/// Whether every entry of the matrix is within the accepted magnitude.
pub open spec fn matrix_ok(m: Matrix) -> bool {
    &&& -MATRIX_LIMIT <= m.m0 <= MATRIX_LIMIT
    &&& -MATRIX_LIMIT <= m.m1 <= MATRIX_LIMIT
    &&& -MATRIX_LIMIT <= m.m2 <= MATRIX_LIMIT
    &&& -MATRIX_LIMIT <= m.m3 <= MATRIX_LIMIT
}

/// Distance of `p` from the left/top edge `o`, clipped at zero.
pub open spec fn clip(p: u16, o: u16) -> int {
    if p >= o {
        p - o
    } else {
        0
    }
}

/// Clipped distance, clamped to the extent `w` (normalized value capped at 1).
pub open spec fn clamped(p: u16, o: u16, w: u16) -> int {
    if clip(p, o) >= w {
        w as int
    } else {
        clip(p, o)
    }
}

/// Nearest integer to `n / d` for `d > 0`, ties rounded up.
pub open spec fn rdiv(n: int, d: int) -> int
    recommends
        d >= 1,
{
    (2 * n + d) / (2 * d)
}

/// Numerator of the exact horizontal output over denominator `mw * mh * FIXED_ONE`.
pub open spec fn num_x(pos: (u16, u16), mapping: Area, screen: Area, m: Matrix) -> int {
    clamped(pos.0, mapping.x, mapping.width) * screen.width * m.m0 * mapping.height + clamped(
        pos.1,
        mapping.y,
        mapping.height,
    ) * screen.height * m.m1 * mapping.width
}

/// Numerator of the exact vertical output over denominator `mw * mh * FIXED_ONE`.
pub open spec fn num_y(pos: (u16, u16), mapping: Area, screen: Area, m: Matrix) -> int {
    clamped(pos.0, mapping.x, mapping.width) * screen.width * m.m2 * mapping.height + clamped(
        pos.1,
        mapping.y,
        mapping.height,
    ) * screen.height * m.m3 * mapping.width
}

/// The horizontal screen coordinate that the mapper emits.
pub open spec fn map_x(pos: (u16, u16), mapping: Area, screen: Area, m: Matrix) -> int
    recommends
        mapping.width >= 1,
        mapping.height >= 1,
{
    rdiv(num_x(pos, mapping, screen, m), mapping.width * mapping.height * FIXED_ONE)
}

/// The vertical screen coordinate that the mapper emits.
pub open spec fn map_y(pos: (u16, u16), mapping: Area, screen: Area, m: Matrix) -> int
    recommends
        mapping.width >= 1,
        mapping.height >= 1,
{
    rdiv(num_y(pos, mapping, screen, m), mapping.width * mapping.height * FIXED_ONE)
}

/// Rounded division of `n` by `d > 0`, matching `rdiv`.
fn rdiv_i128(n: i128, d: i128) -> (r: i128)
    requires
        1 <= d < 0x1_0000_0000_0000_0000,
        -0x1_0000_0000_0000_0000_0000_0000 <= n <= 0x1_0000_0000_0000_0000_0000_0000,
    ensures
        r as int == rdiv(n as int, d as int),
{
    let t: i128 = 2 * n + d;
    let dd: i128 = 2 * d;
    if t >= 0 {
        let q: u128 = (t as u128) / (dd as u128);
        q as i128
    } else {
        let a: u128 = (-t) as u128;
        let q: u128 = (a + (dd as u128) - 1) / (dd as u128);
        proof {
            let ti: int = t as int;
            let di: int = dd as int;
            let ai: int = a as int;
            let qi: int = q as int;
            lemma_fundamental_div_mod(ai + di - 1, di);
            lemma_mod_bound(ai + di - 1, di);
            let rr: int = (ai + di - 1) % di;
            assert(ai + di - 1 == di * qi + rr);
            assert(ti == (-qi) * di + (di - 1 - rr)) by {
                assert(ti == -ai);
                assert(di * qi == qi * di) by (nonlinear_arith);
                assert((-qi) * di == -(qi * di)) by (nonlinear_arith);
            }
            lemma_fundamental_div_mod_converse_div(ti, di, -qi, di - 1 - rr);
        }
        -(q as i128)
    }
}

/// `rdiv` keeps the magnitude bound of the exact quotient.
pub proof fn lemma_rdiv_bound(n: int, d: int, b: int)
    requires
        d >= 1,
        b >= 0,
        -(b * d) <= n <= b * d,
    ensures
        -b <= rdiv(n, d) <= b,
{
    let x: int = 2 * n + d;
    let dd: int = 2 * d;
    let q: int = x / dd;
    lemma_fundamental_div_mod(x, dd);
    lemma_mod_bound(x, dd);
    let r: int = x % dd;
    assert(x == dd * q + r);
    if q > b {
        assert(dd * q >= dd * (b + 1)) by (nonlinear_arith)
            requires
                dd >= 2,
                q >= b + 1,
        ;
        assert(x >= dd * (b + 1));
        assert(dd * (b + 1) == 2 * (b * d) + 2 * d) by (nonlinear_arith)
            requires
                dd == 2 * d,
        ;
        assert(false);
    }
    if q < -b {
        assert(dd * q <= dd * (-b - 1)) by (nonlinear_arith)
            requires
                dd >= 2,
                q <= -b - 1,
        ;
        assert(x <= dd * (-b - 1) + r);
        assert(dd * (-b - 1) == -(2 * (b * d)) - 2 * d) by (nonlinear_arith)
            requires
                dd == 2 * d,
        ;
        assert(false);
    }
}

/// Project a pen position into screen space; see the module description
/// for the exact arithmetic.
pub fn map_point(pos: (u16, u16), mapping: &Area, screen: &Area, m: &Matrix) -> (r: (i32, i32))
    requires
        mapping.width >= 1,
        mapping.height >= 1,
        matrix_ok(*m),
    ensures
        r.0 as int == map_x(pos, *mapping, *screen, *m),
        r.1 as int == map_y(pos, *mapping, *screen, *m),
{
    let dx: u16 = if pos.0 >= mapping.x {
        pos.0 - mapping.x
    } else {
        0
    };
    let nx: u16 = if dx >= mapping.width {
        mapping.width
    } else {
        dx
    };
    let dy: u16 = if pos.1 >= mapping.y {
        pos.1 - mapping.y
    } else {
        0
    };
    let ny: u16 = if dy >= mapping.height {
        mapping.height
    } else {
        dy
    };
    proof {
        assert(nx as int == clamped(pos.0, mapping.x, mapping.width));
        assert(ny as int == clamped(pos.1, mapping.y, mapping.height));
    }
    let mw: i128 = mapping.width as i128;
    let mh: i128 = mapping.height as i128;
    let sw: i128 = screen.width as i128;
    let sh: i128 = screen.height as i128;
    let xi: i128 = nx as i128;
    let yi: i128 = ny as i128;
    proof {
        assert(1 <= mw * mh * 65536 < 0x1_0000_0000_0000_0000) by (nonlinear_arith)
            requires
                1 <= mw <= 65535,
                1 <= mh <= 65535,
        ;
    }
    let den: i128 = mw * mh * 65536;
    let tx0: i128 = term(xi, sw, m.m0 as i128, mh);
    let tx1: i128 = term(yi, sh, m.m1 as i128, mw);
    let ty0: i128 = term(xi, sw, m.m2 as i128, mh);
    let ty1: i128 = term(yi, sh, m.m3 as i128, mw);
    let numx: i128 = tx0 + tx1;
    let numy: i128 = ty0 + ty1;
    let wx: i128 = rdiv_i128(numx, den);
    let wy: i128 = rdiv_i128(numy, den);
    proof {
        assert(numx as int == num_x(pos, *mapping, *screen, *m));
        assert(numy as int == num_y(pos, *mapping, *screen, *m));
        assert(den as int == mapping.width * mapping.height * FIXED_ONE);
        lemma_term_bound(xi as int, sw as int, m.m0 as int, mw as int, mh as int);
        lemma_term_bound(yi as int, sh as int, m.m1 as int, mh as int, mw as int);
        lemma_term_bound(xi as int, sw as int, m.m2 as int, mw as int, mh as int);
        lemma_term_bound(yi as int, sh as int, m.m3 as int, mh as int, mw as int);
        assert(mh as int * (mw as int) == mw as int * (mh as int)) by (nonlinear_arith);
        lemma_rdiv_bound(numx as int, den as int, 33553920);
        lemma_rdiv_bound(numy as int, den as int, 33553920);
    }
    (wx as i32, wy as i32)
}

/// One product of the mapper numerator, computed without overflow.
fn term(v: i128, s: i128, mm: i128, o: i128) -> (r: i128)
    requires
        0 <= v <= 65535,
        0 <= s <= 65535,
        -16777216 <= mm <= 16777216,
        0 <= o <= 65535,
    ensures
        r as int == v * s * mm * o,
        -0x1000_0000_0000_0000_0000 <= r <= 0x1000_0000_0000_0000_0000,
{
    proof {
        assert(0 <= v * s <= 0x1_0000_0000) by (nonlinear_arith)
            requires
                0 <= v <= 65535,
                0 <= s <= 65535,
        ;
        assert(-0x100_0000_0000_0000 <= (v * s) * mm <= 0x100_0000_0000_0000)
            by (nonlinear_arith)
            requires
                0 <= v * s <= 0x1_0000_0000,
                -16777216 <= mm <= 16777216,
        ;
        assert(-0x1000_0000_0000_0000_0000 <= ((v * s) * mm) * o <= 0x1000_0000_0000_0000_0000)
            by (nonlinear_arith)
            requires
                -0x100_0000_0000_0000 <= (v * s) * mm <= 0x100_0000_0000_0000,
                0 <= o <= 65535,
        ;
    }
    v * s * mm * o
}

/// One term of the mapper numerator is within `16776960` times the
/// denominator `p * o * 65536`.
proof fn lemma_term_bound(v: int, s: int, mm: int, p: int, o: int)
    requires
        0 <= v <= p,
        0 <= s <= 65535,
        -16777216 <= mm <= 16777216,
        1 <= o,
        1 <= p,
    ensures
        -(16776960 * (p * o * 65536)) <= v * s * mm * o <= 16776960 * (p * o * 65536),
{
    assert(-(16776960 * (p * o * 65536)) <= v * s * mm * o <= 16776960 * (p * o * 65536))
        by (nonlinear_arith)
        requires
            0 <= v <= p,
            0 <= s <= 65535,
            -16777216 <= mm <= 16777216,
            1 <= o,
            1 <= p,
    ;
}

/// The mapper is a pure function of position, mapping, screen, and matrix:
/// two applications to the same input yield the same output.
pub proof fn lemma_map_deterministic(
    a: (i32, i32),
    b: (i32, i32),
    pos: (u16, u16),
    mapping: Area,
    screen: Area,
    m: Matrix,
)
    requires
        a.0 as int == map_x(pos, mapping, screen, m),
        a.1 as int == map_y(pos, mapping, screen, m),
        b.0 as int == map_x(pos, mapping, screen, m),
        b.1 as int == map_y(pos, mapping, screen, m),
    ensures
        a == b,
{
}

/// A position left of the mapping area clips to zero: with no horizontal
/// skew term, the output x is zero whatever the horizontal scale.
pub proof fn lemma_clip_left_zero(pos: (u16, u16), mapping: Area, screen: Area, m: Matrix)
    requires
        pos.0 < mapping.x,
        m.m1 == 0,
        mapping.width >= 1,
        mapping.height >= 1,
    ensures
        clip(pos.0, mapping.x) == 0,
        map_x(pos, mapping, screen, m) == 0,
{
    let ny: int = clamped(pos.1, mapping.y, mapping.height);
    assert(clamped(pos.0, mapping.x, mapping.width) == 0);
    assert(num_x(pos, mapping, screen, m) == 0) by {
        assert(0 * screen.width * m.m0 * mapping.height == 0) by (nonlinear_arith);
        assert(ny * screen.height * 0 * mapping.width == 0) by (nonlinear_arith);
    }
    let d: int = mapping.width * mapping.height * FIXED_ONE;
    assert(mapping.width * mapping.height * 65536 >= 1) by (nonlinear_arith)
        requires
            mapping.width >= 1,
            mapping.height >= 1,
    ;
    assert(d >= 1);
    lemma_rdiv_bound(0, d, 0);
}

} // verus!
