//! Square search bands: the perimeter points of the axis-aligned square of
//! half-width `j * step` around a starting position, in scan order.

use vstd::prelude::*;
use crate::position::Position;

verus! {

/// `n` points of a horizontal edge: `x` starts at `x0` and advances by
/// `step`, `z` is fixed.
pub open spec fn edge_h(x0: int, z: int, step: int, n: int) -> Seq<Position> {
    Seq::new(n as nat, |i: int| Position { x: (x0 + i * step) as i32, z: z as i32 })
}

/// `n` points of a vertical edge: `z` starts at `z0` and advances by `step`,
/// `x` is fixed.
pub open spec fn edge_v(x: int, z0: int, step: int, n: int) -> Seq<Position> {
    Seq::new(n as nat, |i: int| Position { x: x as i32, z: (z0 + i * step) as i32 })
}

/// The perimeter points of band `j`, in scan order.
///
/// Band 0 degenerates to the starting position alone. For `j >= 1` the band
/// is the perimeter of the square of half-width `k = j * step` centered at
/// `start`, sampled every `step` blocks: first the top edge (`z = z0 - k`,
/// `x` ascending over `[x0 - k, x0 + k)`), then the bottom edge (`z = z0 + k`,
/// same `x` range), then the left edge (`x = x0 - k`, `z` ascending over
/// `[z0 - k, z0 + k)`), then the right edge (`x = x0 + k`, same `z` range).
pub open spec fn band_points(start: Position, step: int, j: int) -> Seq<Position> {
    if j <= 0 {
        seq![start]
    } else {
        let k = j * step;
        edge_h(start.x - k, start.z - k, step, 2 * j) + edge_h(start.x - k, start.z + k, step, 2 * j)
            + edge_v(start.x - k, start.z - k, step, 2 * j) + edge_v(
            start.x + k,
            start.z - k,
            step,
            2 * j,
        )
    }
}

/// The total number of perimeter points of bands `0 .. j`.
pub open spec fn points_upto(start: Position, step: int, j: int) -> int
    decreases j,
{
    if j <= 0 {
        0
    } else {
        points_upto(start, step, j - 1) + band_points(start, step, j - 1).len()
    }
}

/// Appends the points of a horizontal edge.
fn push_edge_h(pts: &mut Vec<Position>, x0: i32, z: i32, step: i32, n: i64)
    requires
        step >= 1,
        n >= 0,
        n > 0 ==> x0 + (n - 1) * step <= i32::MAX,
    ensures
        final(pts)@ == old(pts)@ + edge_h(x0 as int, z as int, step as int, n as int),
{
    let ghost pts0 = pts@;
    let mut i: i64 = 0;
    let mut cx: i32 = x0;
    while i < n
        invariant
            0 <= i <= n,
            step >= 1,
            n > 0 ==> x0 + (n - 1) * step <= i32::MAX,
            i < n ==> cx == x0 + i * step,
            pts@ == pts0 + edge_h(x0 as int, z as int, step as int, i as int),
        decreases n - i,
    {
        pts.push(Position { x: cx, z });
        proof {
            assert(edge_h(x0 as int, z as int, step as int, i + 1) =~= edge_h(
                x0 as int,
                z as int,
                step as int,
                i as int,
            ).push(Position { x: cx, z }));
        }
        i = i + 1;
        if i < n {
            proof {
                assert(i * step <= (n - 1) * step) by (nonlinear_arith)
                    requires
                        i <= n - 1 && step >= 1,
                ;
                assert((i - 1) * step + step == i * step) by (nonlinear_arith);
            }
            cx = cx + step;
        }
    }
}

/// Appends the points of a vertical edge.
fn push_edge_v(pts: &mut Vec<Position>, x: i32, z0: i32, step: i32, n: i64)
    requires
        step >= 1,
        n >= 0,
        n > 0 ==> z0 + (n - 1) * step <= i32::MAX,
    ensures
        final(pts)@ == old(pts)@ + edge_v(x as int, z0 as int, step as int, n as int),
{
    let ghost pts0 = pts@;
    let mut i: i64 = 0;
    let mut cz: i32 = z0;
    while i < n
        invariant
            0 <= i <= n,
            step >= 1,
            n > 0 ==> z0 + (n - 1) * step <= i32::MAX,
            i < n ==> cz == z0 + i * step,
            pts@ == pts0 + edge_v(x as int, z0 as int, step as int, i as int),
        decreases n - i,
    {
        pts.push(Position { x, z: cz });
        proof {
            assert(edge_v(x as int, z0 as int, step as int, i + 1) =~= edge_v(
                x as int,
                z0 as int,
                step as int,
                i as int,
            ).push(Position { x, z: cz }));
        }
        i = i + 1;
        if i < n {
            proof {
                assert(i * step <= (n - 1) * step) by (nonlinear_arith)
                    requires
                        i <= n - 1 && step >= 1,
                ;
                assert((i - 1) * step + step == i * step) by (nonlinear_arith);
            }
            cz = cz + step;
        }
    }
}

/// The perimeter points of band `j` around `start`, in scan order.
///
/// The bound requirements keep every perimeter coordinate within `i32`.
pub fn band_perimeter(start: &Position, step: i32, j: i32) -> (pts: Vec<Position>)
    requires
        step >= 1,
        j >= 0,
        i32::MIN <= start.x - j * step,
        start.x + j * step <= i32::MAX,
        i32::MIN <= start.z - j * step,
        start.z + j * step <= i32::MAX,
    ensures
        pts@ == band_points(*start, step as int, j as int),
{
    let mut pts: Vec<Position> = Vec::new();
    if j == 0 {
        pts.push(*start);
        proof {
            assert(pts@ =~= band_points(*start, step as int, 0));
        }
        return pts;
    }
    proof {
        assert(2 * (j * step) <= i32::MAX - i32::MIN);
    }
    let k: i32 = j * step;
    let n: i64 = 2 * (j as i64);
    proof {
        assert((n - 1) * step == 2 * (j as int * step) - step) by (nonlinear_arith)
            requires
                n == 2 * (j as int),
        ;
        assert((start.x - k) + (n - 1) * step == start.x + k - step);
        assert((start.z - k) + (n - 1) * step == start.z + k - step);
    }
    push_edge_h(&mut pts, start.x - k, start.z - k, step, n);
    push_edge_h(&mut pts, start.x - k, start.z + k, step, n);
    push_edge_v(&mut pts, start.x - k, start.z - k, step, n);
    push_edge_v(&mut pts, start.x + k, start.z - k, step, n);
    proof {
        assert(pts@ =~= band_points(*start, step as int, j as int));
    }
    pts
}

} // verus!
