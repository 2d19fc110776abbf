//! Per-direction face data for a unit cube: the offset vector to the
//! neighbor block, the triangle winding, and the four template vertices of
//! the face quad.  All of it is baked lookup data, never recomputed.
//!
//! Geometry is integer-valued.  Positions are measured in half-blocks: a
//! block centered at the origin has its corners at coordinates `-1` and `1`,
//! which stand for `-0.5` and `0.5` block units.  Texture coordinates are the
//! corner values `0` and `1`.  A host engine scales positions by one half
//! when it realizes a surface, and computes per-vertex tangents itself from
//! the merged triangle list, so the vertex carries no tangent slot.
//!
//! The Front/Top/Left faces use one winding order and Back/Bottom/Right the
//! reverse.  The asymmetry is deliberate: it is exactly what makes every
//! face's geometric normal point outward, along the direction's offset
//! vector, under the engine's handedness (see [`lemma_template_winding`]).

use vstd::prelude::*;

verus! {

/// A 3-component integer vector: a position in half-block units, or a unit
/// normal.
#[derive(Clone, Copy, PartialEq, Eq, Structural, Debug)]
pub struct Vec3i {
    pub x: i32,
    pub y: i32,
    pub z: i32,
}

/// One corner of a face quad: position (half-block units), outward normal,
/// and the texture corner it samples.
#[derive(Clone, Copy, PartialEq, Eq, Structural, Debug)]
pub struct Vertex {
    pub position: Vec3i,
    pub normal: Vec3i,
    pub tex_u: i32,
    pub tex_v: i32,
}

/// A triangle as three indices into a vertex buffer.
#[derive(Clone, Copy, PartialEq, Eq, Structural, Debug)]
pub struct Triangle {
    pub a: u32,
    pub b: u32,
    pub c: u32,
}

/// The six face-adjacency directions of a cube.
#[derive(Clone, Copy, PartialEq, Eq, Structural, Debug)]
pub enum Direction {
    Front,
    Back,
    Top,
    Bottom,
    Right,
    Left,
}

/// The unit offset vector to the neighbor block in direction `d`.
pub open spec fn vector_spec(d: Direction) -> (i32, i32, i32) {
    match d {
        Direction::Front => (0i32, 0i32, 1i32),
        Direction::Back => (0i32, 0i32, -1i32),
        Direction::Top => (0i32, 1i32, 0i32),
        Direction::Bottom => (0i32, -1i32, 0i32),
        Direction::Right => (1i32, 0i32, 0i32),
        Direction::Left => (-1i32, 0i32, 0i32),
    }
}

/// A fixed numbering of the six directions, used as the innermost digit of
/// the mesher's face enumeration.
pub open spec fn dir_index(d: Direction) -> int {
    match d {
        Direction::Front => 0,
        Direction::Back => 1,
        Direction::Top => 2,
        Direction::Bottom => 3,
        Direction::Right => 4,
        Direction::Left => 5,
    }
}

/// The direction whose offset vector is the negation of `d`'s.
pub open spec fn opposite_spec(d: Direction) -> Direction {
    match d {
        Direction::Front => Direction::Back,
        Direction::Back => Direction::Front,
        Direction::Top => Direction::Bottom,
        Direction::Bottom => Direction::Top,
        Direction::Right => Direction::Left,
        Direction::Left => Direction::Right,
    }
}

/// The fixed order in which the mesher and the host walk the directions.
pub open spec fn all_directions() -> Seq<Direction> {
    seq![
        Direction::Front,
        Direction::Back,
        Direction::Top,
        Direction::Bottom,
        Direction::Right,
        Direction::Left,
    ]
}

/// Clockwise template: the winding used by the Front, Top and Left faces.
pub open spec fn clockwise_triangles() -> Seq<Triangle> {
    seq![Triangle { a: 2u32, b: 1u32, c: 0u32 }, Triangle { a: 3u32, b: 2u32, c: 0u32 }]
}

/// Counter-clockwise template: the winding used by the Back, Bottom and
/// Right faces.
pub open spec fn counter_clockwise_triangles() -> Seq<Triangle> {
    seq![Triangle { a: 0u32, b: 1u32, c: 2u32 }, Triangle { a: 0u32, b: 2u32, c: 3u32 }]
}

/// The two triangles of the face quad in direction `d`, as indices `0..4`
/// into that face's template vertices.
pub open spec fn template_triangles(d: Direction) -> Seq<Triangle> {
    match d {
        Direction::Front | Direction::Top | Direction::Left => clockwise_triangles(),
        Direction::Back | Direction::Bottom | Direction::Right => counter_clockwise_triangles(),
    }
}

/// The four template vertices of the face quad in direction `d`, for a block
/// centered at the origin.  Corner coordinates are `-1` or `1` half-blocks.
pub open spec fn template_vertices(d: Direction) -> Seq<Vertex> {
    match d {
        Direction::Front => seq![
            (Vertex {
                position: Vec3i { x: -1i32, y: -1i32, z: 1i32 },
                normal: Vec3i { x: 0i32, y: 0i32, z: 1i32 },
                tex_u: 0i32,
                tex_v: 0i32,
            }),
            (Vertex {
                position: Vec3i { x: -1i32, y: 1i32, z: 1i32 },
                normal: Vec3i { x: 0i32, y: 0i32, z: 1i32 },
                tex_u: 0i32,
                tex_v: 1i32,
            }),
            (Vertex {
                position: Vec3i { x: 1i32, y: 1i32, z: 1i32 },
                normal: Vec3i { x: 0i32, y: 0i32, z: 1i32 },
                tex_u: 1i32,
                tex_v: 1i32,
            }),
            (Vertex {
                position: Vec3i { x: 1i32, y: -1i32, z: 1i32 },
                normal: Vec3i { x: 0i32, y: 0i32, z: 1i32 },
                tex_u: 1i32,
                tex_v: 0i32,
            }),
        ],
        Direction::Back => seq![
            (Vertex {
                position: Vec3i { x: -1i32, y: -1i32, z: -1i32 },
                normal: Vec3i { x: 0i32, y: 0i32, z: -1i32 },
                tex_u: 0i32,
                tex_v: 0i32,
            }),
            (Vertex {
                position: Vec3i { x: -1i32, y: 1i32, z: -1i32 },
                normal: Vec3i { x: 0i32, y: 0i32, z: -1i32 },
                tex_u: 0i32,
                tex_v: 1i32,
            }),
            (Vertex {
                position: Vec3i { x: 1i32, y: 1i32, z: -1i32 },
                normal: Vec3i { x: 0i32, y: 0i32, z: -1i32 },
                tex_u: 1i32,
                tex_v: 1i32,
            }),
            (Vertex {
                position: Vec3i { x: 1i32, y: -1i32, z: -1i32 },
                normal: Vec3i { x: 0i32, y: 0i32, z: -1i32 },
                tex_u: 1i32,
                tex_v: 0i32,
            }),
        ],
        Direction::Top => seq![
            (Vertex {
                position: Vec3i { x: -1i32, y: 1i32, z: 1i32 },
                normal: Vec3i { x: 0i32, y: 1i32, z: 0i32 },
                tex_u: 0i32,
                tex_v: 0i32,
            }),
            (Vertex {
                position: Vec3i { x: -1i32, y: 1i32, z: -1i32 },
                normal: Vec3i { x: 0i32, y: 1i32, z: 0i32 },
                tex_u: 0i32,
                tex_v: 1i32,
            }),
            (Vertex {
                position: Vec3i { x: 1i32, y: 1i32, z: -1i32 },
                normal: Vec3i { x: 0i32, y: 1i32, z: 0i32 },
                tex_u: 1i32,
                tex_v: 1i32,
            }),
            (Vertex {
                position: Vec3i { x: 1i32, y: 1i32, z: 1i32 },
                normal: Vec3i { x: 0i32, y: 1i32, z: 0i32 },
                tex_u: 1i32,
                tex_v: 0i32,
            }),
        ],
        Direction::Bottom => seq![
            (Vertex {
                position: Vec3i { x: -1i32, y: -1i32, z: 1i32 },
                normal: Vec3i { x: 0i32, y: -1i32, z: 0i32 },
                tex_u: 0i32,
                tex_v: 0i32,
            }),
            (Vertex {
                position: Vec3i { x: -1i32, y: -1i32, z: -1i32 },
                normal: Vec3i { x: 0i32, y: -1i32, z: 0i32 },
                tex_u: 0i32,
                tex_v: 1i32,
            }),
            (Vertex {
                position: Vec3i { x: 1i32, y: -1i32, z: -1i32 },
                normal: Vec3i { x: 0i32, y: -1i32, z: 0i32 },
                tex_u: 1i32,
                tex_v: 1i32,
            }),
            (Vertex {
                position: Vec3i { x: 1i32, y: -1i32, z: 1i32 },
                normal: Vec3i { x: 0i32, y: -1i32, z: 0i32 },
                tex_u: 1i32,
                tex_v: 0i32,
            }),
        ],
        Direction::Right => seq![
            (Vertex {
                position: Vec3i { x: 1i32, y: -1i32, z: -1i32 },
                normal: Vec3i { x: 1i32, y: 0i32, z: 0i32 },
                tex_u: 0i32,
                tex_v: 0i32,
            }),
            (Vertex {
                position: Vec3i { x: 1i32, y: 1i32, z: -1i32 },
                normal: Vec3i { x: 1i32, y: 0i32, z: 0i32 },
                tex_u: 0i32,
                tex_v: 1i32,
            }),
            (Vertex {
                position: Vec3i { x: 1i32, y: 1i32, z: 1i32 },
                normal: Vec3i { x: 1i32, y: 0i32, z: 0i32 },
                tex_u: 1i32,
                tex_v: 1i32,
            }),
            (Vertex {
                position: Vec3i { x: 1i32, y: -1i32, z: 1i32 },
                normal: Vec3i { x: 1i32, y: 0i32, z: 0i32 },
                tex_u: 1i32,
                tex_v: 0i32,
            }),
        ],
        Direction::Left => seq![
            (Vertex {
                position: Vec3i { x: -1i32, y: -1i32, z: -1i32 },
                normal: Vec3i { x: -1i32, y: 0i32, z: 0i32 },
                tex_u: 0i32,
                tex_v: 0i32,
            }),
            (Vertex {
                position: Vec3i { x: -1i32, y: 1i32, z: -1i32 },
                normal: Vec3i { x: -1i32, y: 0i32, z: 0i32 },
                tex_u: 0i32,
                tex_v: 1i32,
            }),
            (Vertex {
                position: Vec3i { x: -1i32, y: 1i32, z: 1i32 },
                normal: Vec3i { x: -1i32, y: 0i32, z: 0i32 },
                tex_u: 1i32,
                tex_v: 1i32,
            }),
            (Vertex {
                position: Vec3i { x: -1i32, y: -1i32, z: 1i32 },
                normal: Vec3i { x: -1i32, y: 0i32, z: 0i32 },
                tex_u: 1i32,
                tex_v: 0i32,
            }),
        ],
    }
}

/// The edge vector from `a`'s position to `b`'s, componentwise, as
/// unbounded integers.
pub open spec fn edge_vec(a: Vertex, b: Vertex) -> (int, int, int) {
    (
        b.position.x - a.position.x,
        b.position.y - a.position.y,
        b.position.z - a.position.z,
    )
}

/// Cross product of two integer vectors.
pub open spec fn cross(u: (int, int, int), v: (int, int, int)) -> (int, int, int) {
    (u.1 * v.2 - u.2 * v.1, u.2 * v.0 - u.0 * v.2, u.0 * v.1 - u.1 * v.0)
}

/// Dot product of two integer vectors.
pub open spec fn dot(u: (int, int, int), v: (int, int, int)) -> int {
    u.0 * v.0 + u.1 * v.1 + u.2 * v.2
}

/// The geometric normal of the triangle `(a, b, c)`, taken in winding
/// order: the cross product of its two edges out of `a`.
pub open spec fn triangle_normal(a: Vertex, b: Vertex, c: Vertex) -> (int, int, int) {
    cross(edge_vec(a, b), edge_vec(a, c))
}

/// An offset-vector tuple widened to unbounded integers.
pub open spec fn widen3(v: (i32, i32, i32)) -> (int, int, int) {
    (v.0 as int, v.1 as int, v.2 as int)
}

/// `v` scaled by 4: the exact geometric normal of each template triangle,
/// whose edges are 2 half-blocks long.
pub open spec fn scale4(v: (i32, i32, i32)) -> (int, int, int) {
    (4 * v.0, 4 * v.1, 4 * v.2)
}

/// Winding/normal consistency of the baked tables: each of the two template
/// triangles of every direction has indices below 4 and a geometric normal
/// that is exactly 4 times the direction's offset vector — in particular its
/// dot product with the offset vector is positive.
pub proof fn lemma_template_winding(d: Direction, k: int)
    requires
        0 <= k < 2,
    ensures
        ({
            let t = template_triangles(d)[k];
            let vs = template_vertices(d);
            &&& t.a < 4
            &&& t.b < 4
            &&& t.c < 4
            &&& triangle_normal(vs[t.a as int], vs[t.b as int], vs[t.c as int]) == scale4(
                vector_spec(d),
            )
            &&& dot(
                triangle_normal(vs[t.a as int], vs[t.b as int], vs[t.c as int]),
                widen3(vector_spec(d)),
            ) > 0
        }),
{
    // pin down every product of edge components (±2, 0) and of normal
    // components (±4, 0) with offset components (±1, 0), so the concrete
    // cross and dot products below fold to numbers
    assert((-2int) * (-2int) == 4int) by (nonlinear_arith);
    assert((-2int) * (0int) == 0int) by (nonlinear_arith);
    assert((-2int) * (2int) == -4int) by (nonlinear_arith);
    assert((0int) * (-2int) == 0int) by (nonlinear_arith);
    assert((0int) * (0int) == 0int) by (nonlinear_arith);
    assert((0int) * (2int) == 0int) by (nonlinear_arith);
    assert((2int) * (-2int) == -4int) by (nonlinear_arith);
    assert((2int) * (0int) == 0int) by (nonlinear_arith);
    assert((2int) * (2int) == 4int) by (nonlinear_arith);
    assert((-4int) * (-1int) == 4int) by (nonlinear_arith);
    assert((-4int) * (0int) == 0int) by (nonlinear_arith);
    assert((-4int) * (1int) == -4int) by (nonlinear_arith);
    assert((0int) * (-1int) == 0int) by (nonlinear_arith);
    assert((0int) * (0int) == 0int) by (nonlinear_arith);
    assert((0int) * (1int) == 0int) by (nonlinear_arith);
    assert((4int) * (-1int) == -4int) by (nonlinear_arith);
    assert((4int) * (0int) == 0int) by (nonlinear_arith);
    assert((4int) * (1int) == 4int) by (nonlinear_arith);
    let vs = template_vertices(d);
    match d {
        Direction::Front => {
            if k == 0 {
                let e1 = (-2int, 0int, 0int);
                let e2 = (-2int, -2int, 0int);
                let w = (0int, 0int, 1int);
                assert(edge_vec(vs[2], vs[1]) == e1);
                assert(edge_vec(vs[2], vs[0]) == e2);
                assert(cross(e1, e2) == (0int, 0int, 4int));
                assert(triangle_normal(vs[2], vs[1], vs[0]) == (0int, 0int, 4int));
                assert(widen3(vector_spec(d)) == w);
                assert(dot((0int, 0int, 4int), w) == 4);
            } else {
                let e1 = (0int, 2int, 0int);
                let e2 = (-2int, 0int, 0int);
                let w = (0int, 0int, 1int);
                assert(edge_vec(vs[3], vs[2]) == e1);
                assert(edge_vec(vs[3], vs[0]) == e2);
                assert(cross(e1, e2) == (0int, 0int, 4int));
                assert(triangle_normal(vs[3], vs[2], vs[0]) == (0int, 0int, 4int));
                assert(widen3(vector_spec(d)) == w);
                assert(dot((0int, 0int, 4int), w) == 4);
            }
        },
        Direction::Back => {
            if k == 0 {
                let e1 = (0int, 2int, 0int);
                let e2 = (2int, 2int, 0int);
                let w = (0int, 0int, -1int);
                assert(edge_vec(vs[0], vs[1]) == e1);
                assert(edge_vec(vs[0], vs[2]) == e2);
                assert(cross(e1, e2) == (0int, 0int, -4int));
                assert(triangle_normal(vs[0], vs[1], vs[2]) == (0int, 0int, -4int));
                assert(widen3(vector_spec(d)) == w);
                assert(dot((0int, 0int, -4int), w) == 4);
            } else {
                let e1 = (2int, 2int, 0int);
                let e2 = (2int, 0int, 0int);
                let w = (0int, 0int, -1int);
                assert(edge_vec(vs[0], vs[2]) == e1);
                assert(edge_vec(vs[0], vs[3]) == e2);
                assert(cross(e1, e2) == (0int, 0int, -4int));
                assert(triangle_normal(vs[0], vs[2], vs[3]) == (0int, 0int, -4int));
                assert(widen3(vector_spec(d)) == w);
                assert(dot((0int, 0int, -4int), w) == 4);
            }
        },
        Direction::Top => {
            if k == 0 {
                let e1 = (-2int, 0int, 0int);
                let e2 = (-2int, 0int, 2int);
                let w = (0int, 1int, 0int);
                assert(edge_vec(vs[2], vs[1]) == e1);
                assert(edge_vec(vs[2], vs[0]) == e2);
                assert(cross(e1, e2) == (0int, 4int, 0int));
                assert(triangle_normal(vs[2], vs[1], vs[0]) == (0int, 4int, 0int));
                assert(widen3(vector_spec(d)) == w);
                assert(dot((0int, 4int, 0int), w) == 4);
            } else {
                let e1 = (0int, 0int, -2int);
                let e2 = (-2int, 0int, 0int);
                let w = (0int, 1int, 0int);
                assert(edge_vec(vs[3], vs[2]) == e1);
                assert(edge_vec(vs[3], vs[0]) == e2);
                assert(cross(e1, e2) == (0int, 4int, 0int));
                assert(triangle_normal(vs[3], vs[2], vs[0]) == (0int, 4int, 0int));
                assert(widen3(vector_spec(d)) == w);
                assert(dot((0int, 4int, 0int), w) == 4);
            }
        },
        Direction::Bottom => {
            if k == 0 {
                let e1 = (0int, 0int, -2int);
                let e2 = (2int, 0int, -2int);
                let w = (0int, -1int, 0int);
                assert(edge_vec(vs[0], vs[1]) == e1);
                assert(edge_vec(vs[0], vs[2]) == e2);
                assert(cross(e1, e2) == (0int, -4int, 0int));
                assert(triangle_normal(vs[0], vs[1], vs[2]) == (0int, -4int, 0int));
                assert(widen3(vector_spec(d)) == w);
                assert(dot((0int, -4int, 0int), w) == 4);
            } else {
                let e1 = (2int, 0int, -2int);
                let e2 = (2int, 0int, 0int);
                let w = (0int, -1int, 0int);
                assert(edge_vec(vs[0], vs[2]) == e1);
                assert(edge_vec(vs[0], vs[3]) == e2);
                assert(cross(e1, e2) == (0int, -4int, 0int));
                assert(triangle_normal(vs[0], vs[2], vs[3]) == (0int, -4int, 0int));
                assert(widen3(vector_spec(d)) == w);
                assert(dot((0int, -4int, 0int), w) == 4);
            }
        },
        Direction::Right => {
            if k == 0 {
                let e1 = (0int, 2int, 0int);
                let e2 = (0int, 2int, 2int);
                let w = (1int, 0int, 0int);
                assert(edge_vec(vs[0], vs[1]) == e1);
                assert(edge_vec(vs[0], vs[2]) == e2);
                assert(cross(e1, e2) == (4int, 0int, 0int));
                assert(triangle_normal(vs[0], vs[1], vs[2]) == (4int, 0int, 0int));
                assert(widen3(vector_spec(d)) == w);
                assert(dot((4int, 0int, 0int), w) == 4);
            } else {
                let e1 = (0int, 2int, 2int);
                let e2 = (0int, 0int, 2int);
                let w = (1int, 0int, 0int);
                assert(edge_vec(vs[0], vs[2]) == e1);
                assert(edge_vec(vs[0], vs[3]) == e2);
                assert(cross(e1, e2) == (4int, 0int, 0int));
                assert(triangle_normal(vs[0], vs[2], vs[3]) == (4int, 0int, 0int));
                assert(widen3(vector_spec(d)) == w);
                assert(dot((4int, 0int, 0int), w) == 4);
            }
        },
        Direction::Left => {
            if k == 0 {
                let e1 = (0int, 0int, -2int);
                let e2 = (0int, -2int, -2int);
                let w = (-1int, 0int, 0int);
                assert(edge_vec(vs[2], vs[1]) == e1);
                assert(edge_vec(vs[2], vs[0]) == e2);
                assert(cross(e1, e2) == (-4int, 0int, 0int));
                assert(triangle_normal(vs[2], vs[1], vs[0]) == (-4int, 0int, 0int));
                assert(widen3(vector_spec(d)) == w);
                assert(dot((-4int, 0int, 0int), w) == 4);
            } else {
                let e1 = (0int, 2int, 0int);
                let e2 = (0int, 0int, -2int);
                let w = (-1int, 0int, 0int);
                assert(edge_vec(vs[3], vs[2]) == e1);
                assert(edge_vec(vs[3], vs[0]) == e2);
                assert(cross(e1, e2) == (-4int, 0int, 0int));
                assert(triangle_normal(vs[3], vs[2], vs[0]) == (-4int, 0int, 0int));
                assert(widen3(vector_spec(d)) == w);
                assert(dot((-4int, 0int, 0int), w) == 4);
            }
        },
    }
}

/// `v` translated by `t`.  The normal and texture corner are unaffected;
/// the stored position truncates to `i32`, which is exact whenever the
/// caller keeps coordinates in range (see [`lemma_translated_normal`]).
pub open spec fn translated_spec(v: Vertex, t: Vec3i) -> Vertex {
    Vertex {
        position: Vec3i {
            x: (v.position.x + t.x) as i32,
            y: (v.position.y + t.y) as i32,
            z: (v.position.z + t.z) as i32,
        },
        ..v
    }
}

/// Translating all three vertices of a triangle leaves its geometric normal
/// unchanged, as long as the additions stay exact.
pub proof fn lemma_translated_normal(a: Vertex, b: Vertex, c: Vertex, t: Vec3i)
    requires
        -1000 <= a.position.x + t.x <= 1000,
        -1000 <= a.position.y + t.y <= 1000,
        -1000 <= a.position.z + t.z <= 1000,
        -1000 <= b.position.x + t.x <= 1000,
        -1000 <= b.position.y + t.y <= 1000,
        -1000 <= b.position.z + t.z <= 1000,
        -1000 <= c.position.x + t.x <= 1000,
        -1000 <= c.position.y + t.y <= 1000,
        -1000 <= c.position.z + t.z <= 1000,
    ensures
        triangle_normal(translated_spec(a, t), translated_spec(b, t), translated_spec(c, t))
            == triangle_normal(a, b, c),
{
    assert(edge_vec(translated_spec(a, t), translated_spec(b, t)) == edge_vec(a, b));
    assert(edge_vec(translated_spec(a, t), translated_spec(c, t)) == edge_vec(a, c));
}

/// Builds one face-quad corner from its parts.
fn corner(position: Vec3i, normal: Vec3i, tex_u: i32, tex_v: i32) -> (r: Vertex)
    ensures
        r == (Vertex { position, normal, tex_u, tex_v }),
{
    Vertex { position, normal, tex_u, tex_v }
}

impl Direction {
    /// The unit offset vector to the neighbor block in this direction.
    pub fn vector(&self) -> (r: (i32, i32, i32))
        ensures
            r == vector_spec(*self),
    {
        match self {
            Direction::Front => (0i32, 0i32, 1i32),
            Direction::Back => (0i32, 0i32, -1i32),
            Direction::Top => (0i32, 1i32, 0i32),
            Direction::Bottom => (0i32, -1i32, 0i32),
            Direction::Right => (1i32, 0i32, 0i32),
            Direction::Left => (-1i32, 0i32, 0i32),
        }
    }

    /// The two triangles of this face's quad, as local vertex indices
    /// `0..4`, with the winding baked per direction.
    pub fn triangles(&self) -> (r: Vec<Triangle>)
        ensures
            r@ == template_triangles(*self),
    {
        let r: Vec<Triangle> = match self {
            Direction::Front | Direction::Top | Direction::Left => vec![
                Triangle { a: 2u32, b: 1u32, c: 0u32 },
                Triangle { a: 3u32, b: 2u32, c: 0u32 },
            ],
            Direction::Back | Direction::Bottom | Direction::Right => vec![
                Triangle { a: 0u32, b: 1u32, c: 2u32 },
                Triangle { a: 0u32, b: 2u32, c: 3u32 },
            ],
        };
        proof {
            assert(r@ =~= template_triangles(*self));
        }
        r
    }

    /// The four template vertices of this face's quad, for a block centered
    /// at the origin: baked tables, one per direction.
    pub fn verticles(&self) -> (r: Vec<Vertex>)
        ensures
            r@ == template_vertices(*self),
    {
        let (nx, ny, nz) = self.vector();
        let normal = Vec3i { x: nx, y: ny, z: nz };
        let r: Vec<Vertex> = match self {
            Direction::Front => vec![
                corner(Vec3i { x: -1i32, y: -1i32, z: 1i32 }, normal, 0, 0),
                corner(Vec3i { x: -1i32, y: 1i32, z: 1i32 }, normal, 0, 1),
                corner(Vec3i { x: 1i32, y: 1i32, z: 1i32 }, normal, 1, 1),
                corner(Vec3i { x: 1i32, y: -1i32, z: 1i32 }, normal, 1, 0),
            ],
            Direction::Back => vec![
                corner(Vec3i { x: -1i32, y: -1i32, z: -1i32 }, normal, 0, 0),
                corner(Vec3i { x: -1i32, y: 1i32, z: -1i32 }, normal, 0, 1),
                corner(Vec3i { x: 1i32, y: 1i32, z: -1i32 }, normal, 1, 1),
                corner(Vec3i { x: 1i32, y: -1i32, z: -1i32 }, normal, 1, 0),
            ],
            Direction::Top => vec![
                corner(Vec3i { x: -1i32, y: 1i32, z: 1i32 }, normal, 0, 0),
                corner(Vec3i { x: -1i32, y: 1i32, z: -1i32 }, normal, 0, 1),
                corner(Vec3i { x: 1i32, y: 1i32, z: -1i32 }, normal, 1, 1),
                corner(Vec3i { x: 1i32, y: 1i32, z: 1i32 }, normal, 1, 0),
            ],
            Direction::Bottom => vec![
                corner(Vec3i { x: -1i32, y: -1i32, z: 1i32 }, normal, 0, 0),
                corner(Vec3i { x: -1i32, y: -1i32, z: -1i32 }, normal, 0, 1),
                corner(Vec3i { x: 1i32, y: -1i32, z: -1i32 }, normal, 1, 1),
                corner(Vec3i { x: 1i32, y: -1i32, z: 1i32 }, normal, 1, 0),
            ],
            Direction::Right => vec![
                corner(Vec3i { x: 1i32, y: -1i32, z: -1i32 }, normal, 0, 0),
                corner(Vec3i { x: 1i32, y: 1i32, z: -1i32 }, normal, 0, 1),
                corner(Vec3i { x: 1i32, y: 1i32, z: 1i32 }, normal, 1, 1),
                corner(Vec3i { x: 1i32, y: -1i32, z: 1i32 }, normal, 1, 0),
            ],
            Direction::Left => vec![
                corner(Vec3i { x: -1i32, y: -1i32, z: -1i32 }, normal, 0, 0),
                corner(Vec3i { x: -1i32, y: 1i32, z: -1i32 }, normal, 0, 1),
                corner(Vec3i { x: -1i32, y: 1i32, z: 1i32 }, normal, 1, 1),
                corner(Vec3i { x: -1i32, y: -1i32, z: 1i32 }, normal, 1, 0),
            ],
        };
        proof {
            assert(r@ =~= template_vertices(*self));
        }
        r
    }

    /// All six directions, in the fixed order the mesher walks them.
    pub fn iterator() -> (r: Vec<Direction>)
        ensures
            r@ == all_directions(),
    {
        let r: Vec<Direction> = vec![
            Direction::Front,
            Direction::Back,
            Direction::Top,
            Direction::Bottom,
            Direction::Right,
            Direction::Left,
        ];
        proof {
            assert(r@ =~= all_directions());
        }
        r
    }

    /// The direction at index `i` of the fixed numbering.
    pub fn from_index(i: usize) -> (r: Direction)
        requires
            i < 6,
        ensures
            dir_index(r) == i,
            r == dir_from_index(i as int),
    {
        if i == 0 {
            Direction::Front
        } else if i == 1 {
            Direction::Back
        } else if i == 2 {
            Direction::Top
        } else if i == 3 {
            Direction::Bottom
        } else if i == 4 {
            Direction::Right
        } else {
            Direction::Left
        }
    }

    /// The direction whose offset vector is the negation of this one's.
    pub fn opposite(&self) -> (r: Direction)
        ensures
            r == opposite_spec(*self),
    {
        match self {
            Direction::Front => Direction::Back,
            Direction::Back => Direction::Front,
            Direction::Top => Direction::Bottom,
            Direction::Bottom => Direction::Top,
            Direction::Right => Direction::Left,
            Direction::Left => Direction::Right,
        }
    }
}

/// The direction at index `i` of the fixed numbering (total: indices outside
/// `0..6` fall back to `Left`, which callers never rely on).
pub open spec fn dir_from_index(i: int) -> Direction {
    if i == 0 {
        Direction::Front
    } else if i == 1 {
        Direction::Back
    } else if i == 2 {
        Direction::Top
    } else if i == 3 {
        Direction::Bottom
    } else if i == 4 {
        Direction::Right
    } else {
        Direction::Left
    }
}

/// Every template corner sits on the unit cube: each position coordinate is
/// `-1` or `1` half-blocks, and the vertex normal is the direction's offset
/// vector.
pub proof fn lemma_template_vertex_bounds(d: Direction, k: int)
    requires
        0 <= k < 4,
    ensures
        ({
            let v = template_vertices(d)[k];
            &&& -1 <= v.position.x <= 1
            &&& -1 <= v.position.y <= 1
            &&& -1 <= v.position.z <= 1
            &&& v.normal.x == vector_spec(d).0
            &&& v.normal.y == vector_spec(d).1
            &&& v.normal.z == vector_spec(d).2
        }),
{
    let vs = template_vertices(d);
    match d {
        Direction::Front => {
            if k == 0 {
                assert(vs[0] == vs[0]);
            } else if k == 1 {
                assert(vs[1] == vs[1]);
            } else if k == 2 {
                assert(vs[2] == vs[2]);
            } else {
                assert(vs[3] == vs[3]);
            }
        },
        Direction::Back => {
            if k == 0 {
                assert(vs[0] == vs[0]);
            } else if k == 1 {
                assert(vs[1] == vs[1]);
            } else if k == 2 {
                assert(vs[2] == vs[2]);
            } else {
                assert(vs[3] == vs[3]);
            }
        },
        Direction::Top => {
            if k == 0 {
                assert(vs[0] == vs[0]);
            } else if k == 1 {
                assert(vs[1] == vs[1]);
            } else if k == 2 {
                assert(vs[2] == vs[2]);
            } else {
                assert(vs[3] == vs[3]);
            }
        },
        Direction::Bottom => {
            if k == 0 {
                assert(vs[0] == vs[0]);
            } else if k == 1 {
                assert(vs[1] == vs[1]);
            } else if k == 2 {
                assert(vs[2] == vs[2]);
            } else {
                assert(vs[3] == vs[3]);
            }
        },
        Direction::Right => {
            if k == 0 {
                assert(vs[0] == vs[0]);
            } else if k == 1 {
                assert(vs[1] == vs[1]);
            } else if k == 2 {
                assert(vs[2] == vs[2]);
            } else {
                assert(vs[3] == vs[3]);
            }
        },
        Direction::Left => {
            if k == 0 {
                assert(vs[0] == vs[0]);
            } else if k == 1 {
                assert(vs[1] == vs[1]);
            } else if k == 2 {
                assert(vs[2] == vs[2]);
            } else {
                assert(vs[3] == vs[3]);
            }
        },
    }
}

/// Runtime translation of a face-quad corner by `t` half-blocks.
pub fn translated(v: &Vertex, t: Vec3i) -> (r: Vertex)
    requires
        -1000 <= v.position.x + t.x <= 1000,
        -1000 <= v.position.y + t.y <= 1000,
        -1000 <= v.position.z + t.z <= 1000,
    ensures
        r == translated_spec(*v, t),
{
    Vertex {
        position: Vec3i { x: v.position.x + t.x, y: v.position.y + t.y, z: v.position.z + t.z },
        normal: v.normal,
        tex_u: v.tex_u,
        tex_v: v.tex_v,
    }
}

/// Template triangle indices stay within the four corners of the quad.
pub proof fn lemma_template_triangle_bounds(d: Direction, k: int)
    requires
        0 <= k < 2,
    ensures
        template_triangles(d)[k].a < 4,
        template_triangles(d)[k].b < 4,
        template_triangles(d)[k].c < 4,
{
    if k == 0 {
        assert(template_triangles(d)[0].a < 4);
    } else {
        assert(template_triangles(d)[1].a < 4);
    }
}

/// The fixed numbering round-trips with its decoder.
pub proof fn lemma_dir_index_roundtrip(d: Direction)
    ensures
        dir_from_index(dir_index(d)) == d,
{
}

} // verus!
