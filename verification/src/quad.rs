//! Layout of the body sprites and of the trail strips in the vertex buffers.
use vstd::prelude::*;

use crate::trails::TRAIL_LEN;

verus! {

/// Vertices per body sprite: two triangles.
pub const QUAD_VERTICES: usize = 6;

/// The corner (in units of the sprite's radius) of the `c`-th vertex of a
/// sprite: triangles (-1,-1) (1,-1) (1,1) and (-1,-1) (1,1) (-1,1).
pub open spec fn spec_quad_corner(c: int) -> (i8, i8) {
    if c == 0 {
        (-1i8, -1i8)
    } else if c == 1 {
        (1i8, -1i8)
    } else if c == 2 {
        (1i8, 1i8)
    } else if c == 3 {
        (-1i8, -1i8)
    } else if c == 4 {
        (1i8, 1i8)
    } else {
        (-1i8, 1i8)
    }
}

/// The corner of the `c`-th vertex of a body sprite.
pub fn quad_corner(c: usize) -> (corner: (i8, i8))
    requires
        c < QUAD_VERTICES,
    ensures
        corner == spec_quad_corner(c as int),
{
    if c == 0 {
        (-1, -1)
    } else if c == 1 {
        (1, -1)
    } else if c == 2 {
        (1, 1)
    } else if c == 3 {
        (-1, -1)
    } else if c == 4 {
        (1, 1)
    } else {
        (-1, 1)
    }
}

/// Position in the body vertex buffer of corner `c` of body `i`.
pub open spec fn quad_index(i: int, c: int) -> int {
    i * QUAD_VERTICES + c
}

/// (x, y) is a corner of the square [-1, 1] x [-1, 1].
pub open spec fn is_square_corner(x: i8, y: i8) -> bool {
    (x == -1 || x == 1) && (y == -1 || y == 1)
}

/// Some vertex of a sprite sits at corner (x, y).
pub open spec fn quad_has_corner(x: i8, y: i8) -> bool {
    exists|c: int| 0 <= c < QUAD_VERTICES && #[trigger] spec_quad_corner(c) == (x, y)
}

/// A sprite's two triangles cover all four corners of its square and share
/// the diagonal from (-1,-1) to (1,1); every vertex is one of the four
/// corners.
pub proof fn lemma_quad_covers_square()
    ensures
        forall|x: i8, y: i8| is_square_corner(x, y) ==> #[trigger] quad_has_corner(x, y),
        forall|c: int|
            0 <= c < QUAD_VERTICES ==> is_square_corner(
                (#[trigger] spec_quad_corner(c)).0,
                spec_quad_corner(c).1,
            ),
        spec_quad_corner(0) == spec_quad_corner(3),
        spec_quad_corner(2) == spec_quad_corner(4),
{
    assert forall|x: i8, y: i8| is_square_corner(x, y) implies #[trigger] quad_has_corner(x, y) by {
        if x == -1 && y == -1 {
            assert(spec_quad_corner(0) == (x, y));
        } else if x == 1 && y == -1 {
            assert(spec_quad_corner(1) == (x, y));
        } else if x == 1 && y == 1 {
            assert(spec_quad_corner(2) == (x, y));
        } else {
            assert(spec_quad_corner(5) == (x, y));
        }
    }
}

/// Twice the signed area of the triangle (a, b, c): positive when its
/// corners run counter-clockwise.
pub open spec fn cross(a: (i8, i8), b: (i8, i8), c: (i8, i8)) -> int {
    (b.0 - a.0) * (c.1 - a.1) - (b.1 - a.1) * (c.0 - a.0)
}

/// Both triangles of a sprite start at the corner (-1,-1) and run
/// counter-clockwise, each covering half of the square (area 2 of 4).
pub proof fn lemma_quad_triangles_counter_clockwise()
    ensures
        spec_quad_corner(0) == (-1i8, -1i8),
        cross(spec_quad_corner(0), spec_quad_corner(1), spec_quad_corner(2)) == 4,
        cross(spec_quad_corner(3), spec_quad_corner(4), spec_quad_corner(5)) == 4,
{
    let (a, b, c) = (spec_quad_corner(0), spec_quad_corner(1), spec_quad_corner(2));
    assert(a == (-1i8, -1i8) && b == (1i8, -1i8) && c == (1i8, 1i8));
    assert(cross(a, b, c) == 2 * 2 - 0 * 2);
    let (d, e, f) = (spec_quad_corner(3), spec_quad_corner(4), spec_quad_corner(5));
    assert(d == (-1i8, -1i8) && e == (1i8, 1i8) && f == (-1i8, 1i8));
    assert(cross(d, e, f) == 2 * 2 - 2 * 0);
}

/// Sprite vertices are laid out body after body: vertex `c` of body `i`
/// sits at `6 * i + c`.
pub proof fn lemma_quad_index_row_major(i: int, c: int)
    ensures
        QUAD_VERTICES == 6,
        quad_index(i, c) == 6 * i + c,
{
}

/// Body `i`'s six sprite vertices occupy positions `6i .. 6i+6` of a
/// buffer of `6n` vertices.
pub proof fn lemma_quads_tile_buffer(n: int, i: int, c: int)
    requires
        0 <= i < n,
        0 <= c < QUAD_VERTICES,
    ensures
        i * QUAD_VERTICES <= quad_index(i, c) < (i + 1) * QUAD_VERTICES,
        quad_index(i, c) < n * QUAD_VERTICES,
{
    assert((i + 1) * QUAD_VERTICES <= n * QUAD_VERTICES) by (nonlinear_arith)
        requires
            i + 1 <= n,
    ;
}

/// Fills `out` with the sprite vertices of `n_bodies` bodies: six per body,
/// body after body. Vertex `c` of body `i` is `make(i, corner, glow)` with
/// the `c`-th quad corner, and `glow` set for the central star (body 0)
/// alone.
pub fn fill_body_vertices<V, F: Fn(usize, (i8, i8), bool) -> V>(
    n_bodies: usize,
    make: F,
    out: &mut Vec<V>,
)
    requires
        n_bodies * QUAD_VERTICES <= usize::MAX,
        forall|i: usize, corner: (i8, i8), glow: bool| call_requires(make, (i, corner, glow)),
    ensures
        final(out)@.len() == n_bodies * QUAD_VERTICES,
        forall|i: int, c: int|
            0 <= i < n_bodies && 0 <= c < QUAD_VERTICES ==> call_ensures(
                make,
                (i as usize, spec_quad_corner(c), i == 0),
                #[trigger] final(out)@[quad_index(i, c)],
            ),
{
    out.clear();
    let mut i: usize = 0;
    while i < n_bodies
        invariant
            n_bodies * QUAD_VERTICES <= usize::MAX,
            forall|i: usize, corner: (i8, i8), glow: bool| call_requires(make, (i, corner, glow)),
            i <= n_bodies,
            out@.len() == i * QUAD_VERTICES,
            forall|ii: int, c: int|
                0 <= ii < i && 0 <= c < QUAD_VERTICES ==> call_ensures(
                    make,
                    (ii as usize, spec_quad_corner(c), ii == 0),
                    #[trigger] out@[quad_index(ii, c)],
                ),
        decreases n_bodies - i,
    {
        let mut c: usize = 0;
        while c < QUAD_VERTICES
            invariant
                n_bodies * QUAD_VERTICES <= usize::MAX,
                forall|i: usize, corner: (i8, i8), glow: bool| call_requires(make, (i, corner, glow)),
                i < n_bodies,
                c <= QUAD_VERTICES,
                out@.len() == i * QUAD_VERTICES + c,
                forall|ii: int, cc: int|
                    (0 <= ii < i && 0 <= cc < QUAD_VERTICES) || (ii == i && 0 <= cc < c)
                        ==> call_ensures(
                        make,
                        (ii as usize, spec_quad_corner(cc), ii == 0),
                        #[trigger] out@[quad_index(ii, cc)],
                    ),
            decreases QUAD_VERTICES - c,
        {
            let vertex = make(i, quad_corner(c), i == 0);
            let ghost before = out@;
            out.push(vertex);
            assert forall|ii: int, cc: int|
                (0 <= ii < i && 0 <= cc < QUAD_VERTICES) || (ii == i && 0 <= cc < c + 1)
                    implies call_ensures(
                    make,
                    (ii as usize, spec_quad_corner(cc), ii == 0),
                    #[trigger] out@[quad_index(ii, cc)],
                ) by {
                if !(ii == i && cc == c) {
                    assert(out@[quad_index(ii, cc)] == before[quad_index(ii, cc)]);
                }
            }
            c = c + 1;
        }
        i = i + 1;
    }
}

/// The vertex range `[start, end)` of trail strip `strip` in the flattened
/// trail buffer.
pub fn trail_strip_range(strip: u64) -> (range: (u64, u64))
    requires
        (strip + 1) * TRAIL_LEN <= u64::MAX,
    ensures
        range.0 == strip * TRAIL_LEN,
        range.1 == range.0 + TRAIL_LEN,
{
    let start = strip * 700;
    (start, start + 700)
}

} // verus!
