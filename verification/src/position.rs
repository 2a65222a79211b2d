//! Horizontal coordinates, squared Euclidean distance, and the block-space
//! to region-space conversion.

use vstd::prelude::*;

verus! {

/// A horizontal position `(x, z)`. Depending on context a value is either in
/// block space (raw world units) or in region space (block space divided by
/// the region size, 16).
#[derive(Clone, Copy, PartialEq, Eq, Structural, Debug)]
pub struct Position {
    pub x: i32,
    pub z: i32,
}

/// The squared Euclidean distance between two positions, as a mathematical
/// integer.
pub open spec fn dist2(a: Position, b: Position) -> int {
    (b.x - a.x) * (b.x - a.x) + (b.z - a.z) * (b.z - a.z)
}

/// The squared Euclidean distance between two positions.
///
/// Callers must keep the mathematical result within `i32` range; that also
/// keeps every intermediate difference and square in range.
pub fn hyp_distance(p1: &Position, p2: &Position) -> (r: i32)
    requires
        dist2(*p1, *p2) <= i32::MAX,
    ensures
        r == dist2(*p1, *p2),
{
    proof {
        let dx = p2.x - p1.x;
        let dz = p2.z - p1.z;
        assert(dx * dx >= 0 && dz * dz >= 0) by (nonlinear_arith);
        assert(dx * dx <= i32::MAX && dz * dz <= i32::MAX);
        assert(-46341 < dx < 46341 && -46341 < dz < 46341) by (nonlinear_arith)
            requires
                dx * dx <= i32::MAX && dz * dz <= i32::MAX,
        ;
    }
    let dx: i32 = p2.x - p1.x;
    let dz: i32 = p2.z - p1.z;
    assert(dx * dx <= i32::MAX && dz * dz <= i32::MAX && dx * dx >= 0 && dz * dz >= 0) by (
    nonlinear_arith)
        requires
            -46341 < dx < 46341 && -46341 < dz < 46341 && dx * dx + dz * dz <= i32::MAX,
    ;
    dx * dx + dz * dz
}

/// The squared Euclidean distance, computed exactly in `i128`, which is wide
/// enough for any pair of `i32` positions.
pub fn dist2_exact(a: &Position, b: &Position) -> (r: i128)
    ensures
        r == dist2(*a, *b),
{
    let dx: i128 = (b.x as i128) - (a.x as i128);
    let dz: i128 = (b.z as i128) - (a.z as i128);
    proof {
        assert(dx * dx >= 0 && dz * dz >= 0) by (nonlinear_arith);
        assert(dx * dx < 0x1_0000_0000_0000_0000 && dz * dz < 0x1_0000_0000_0000_0000) by (
        nonlinear_arith)
            requires
                -0x1_0000_0000 < dx < 0x1_0000_0000 && -0x1_0000_0000 < dz < 0x1_0000_0000,
        ;
    }
    dx * dx + dz * dz
}

/// Rust-style truncating division by 16: the quotient is rounded toward zero.
pub open spec fn tdiv16(x: int) -> int {
    if x >= 0 {
        x / 16
    } else {
        -((-x) / 16)
    }
}

/// The region-space position of a block-space position: both axes divided by
/// the region size, 16, rounding toward zero.
pub open spec fn region_pos(p: Position) -> Position {
    Position { x: tdiv16(p.x as int) as i32, z: tdiv16(p.z as int) as i32 }
}

/// Truncating division of one axis by the region size.
fn div16_trunc(x: i32) -> (r: i32)
    ensures
        r == tdiv16(x as int),
{
    if x >= 0 {
        let q: u32 = (x as u32) / 16;
        q as i32
    } else {
        let m: u64 = (-(x as i64)) as u64;
        let q: u64 = m / 16;
        assert(q <= 0x8000_0000);
        (-(q as i64)) as i32
    }
}

/// The region-space position of a block-space position.
pub fn to_region(p: &Position) -> (r: Position)
    ensures
        r == region_pos(*p),
{
    Position { x: div16_trunc(p.x), z: div16_trunc(p.z) }
}

} // verus!
