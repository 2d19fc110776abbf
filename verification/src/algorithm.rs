//! Face-culling mesh extraction: one merged surface per chunk, with exactly
//! one quad (two triangles) per exposed face.
//!
//! The mesher walks every block position in a fixed order (x-major, then y,
//! then z, then the six directions) and emits a face only when the block is
//! solid and its neighbor in that direction is not.  Neighbors outside the
//! chunk are consulted through a [`Neighborhood`] of boundary masks that the
//! world extracts from the adjacent chunks; a side whose neighbor chunk is
//! absent or not yet generated is treated as solid, so no face is emitted
//! toward it — terrain is never prematurely exposed at a seam, and the chunk
//! is meshed again once the neighbor arrives.
//!
//! The whole extraction is specified as a function of the inputs: the face
//! list [`culled_faces`] and its buffer encoding [`mesh_vertices`] /
//! [`mesh_triangles`].  Everything the mesher guarantees — culling,
//! boundary completeness, winding, idempotence — is stated against that
//! model.

use vstd::arithmetic::div_mod::lemma_fundamental_div_mod;
use vstd::arithmetic::div_mod::lemma_fundamental_div_mod_converse_div;
use vstd::arithmetic::div_mod::lemma_fundamental_div_mod_converse_mod;
use vstd::prelude::*;

use crate::chunk::grid_index;
use crate::chunk::in_chunk;
use crate::chunk::BlockGrid;
use crate::direction::dir_from_index;
use crate::direction::dir_index;
use crate::direction::lemma_template_vertex_bounds;
use crate::direction::lemma_template_triangle_bounds;
use crate::direction::lemma_template_winding;
use crate::direction::dot;
use crate::direction::template_triangles;
use crate::direction::template_vertices;
use crate::direction::translated;
use crate::direction::translated_spec;
use crate::direction::triangle_normal;
use crate::direction::vector_spec;
use crate::direction::widen3;
use crate::direction::Direction;
use crate::direction::Triangle;
use crate::direction::Vec3i;
use crate::direction::Vertex;

verus! {

/// Total number of candidate faces in one chunk: 16³ blocks times 6
/// directions.
pub const FACE_SLOTS: usize = 24576;

/// A candidate face, identified by the local block position that owns it and
/// the direction index it points toward.
pub type FaceId = (int, int, int, int);

/// The block index of face slot `fi`.
pub open spec fn face_block(fi: int) -> int {
    fi / 6
}

/// The direction index of face slot `fi`.
pub open spec fn face_dir(fi: int) -> int {
    fi % 6
}

/// x of flat block index `bi` (x-major layout).
pub open spec fn idx_x(bi: int) -> int {
    (bi / 16) / 16
}

/// y of flat block index `bi`.
pub open spec fn idx_y(bi: int) -> int {
    (bi / 16) % 16
}

/// z of flat block index `bi`.
pub open spec fn idx_z(bi: int) -> int {
    bi % 16
}

/// The face identified by flat face slot `fi`.
pub open spec fn face_of(fi: int) -> FaceId {
    (idx_x(face_block(fi)), idx_y(face_block(fi)), idx_z(face_block(fi)), face_dir(fi))
}

/// A face identity that can actually occur: an in-chunk position and a
/// direction index.
pub open spec fn face_wf(f: FaceId) -> bool {
    in_chunk(f.0, f.1, f.2) && 0 <= f.3 < 6
}

/// The offset vector of direction index `d`, as integers.
pub open spec fn dvec(d: int) -> (int, int, int) {
    widen3(vector_spec(dir_from_index(d)))
}

/// Solidity of one 16×16 boundary layer of an adjacent chunk, in row-major
/// order (`u * 16 + v`).
pub struct BoundaryMask {
    pub bits: Vec<bool>,
}

impl BoundaryMask {
    pub open spec fn wf(self) -> bool {
        self.bits@.len() == 256
    }

    /// Whether the boundary cell `(u, v)` of the neighbor is solid.
    pub open spec fn solid_at(self, u: int, v: int) -> bool {
        self.bits@[u * 16 + v]
    }
}

/// The block of `g` that faces the home chunk through the boundary layer
/// toward direction index `d`, at layer coordinates `(u, v)`: the first two
/// direction pairs fix z, the next two fix y, the last two fix x.
pub open spec fn boundary_source_cell(d: int, u: int, v: int) -> (int, int, int) {
    if d == 0 {
        (u, v, 0)
    } else if d == 1 {
        (u, v, 15)
    } else if d == 2 {
        (u, 0, v)
    } else if d == 3 {
        (u, 15, v)
    } else if d == 4 {
        (0, u, v)
    } else {
        (15, u, v)
    }
}

/// Extracts the boundary mask a *neighbor* chunk presents toward the home
/// chunk that lies in direction `d.opposite()` from it: for the home chunk's
/// `d` lookup, this is the layer of the neighbor closest to the home chunk.
pub fn boundary_mask_of(g: &BlockGrid, d: Direction) -> (r: BoundaryMask)
    requires
        g.wf(),
    ensures
        r.wf(),
        forall|u: int, v: int|
            0 <= u < 16 && 0 <= v < 16 ==> r.solid_at(u, v) == g.solid_at(
                boundary_source_cell(dir_index(d), u, v).0,
                boundary_source_cell(dir_index(d), u, v).1,
                boundary_source_cell(dir_index(d), u, v).2,
            ),
{
    let mut bits: Vec<bool> = Vec::new();
    let mut i: usize = 0;
    while i < 256
        invariant
            g.wf(),
            i <= 256,
            bits@.len() == i,
            forall|j: int|
                0 <= j < i ==> bits@[j] == g.solid_at(
                    boundary_source_cell(dir_index(d), j / 16, j % 16).0,
                    boundary_source_cell(dir_index(d), j / 16, j % 16).1,
                    boundary_source_cell(dir_index(d), j / 16, j % 16).2,
                ),
        decreases 256 - i,
    {
        let u = i / 16;
        let v = i % 16;
        proof {
            lemma_fundamental_div_mod(i as int, 16);
        }
        let cell = match d {
            Direction::Front => g.get(u, v, 0),
            Direction::Back => g.get(u, v, 15),
            Direction::Top => g.get(u, 0, v),
            Direction::Bottom => g.get(u, 15, v),
            Direction::Right => g.get(0, u, v),
            Direction::Left => g.get(15, u, v),
        };
        bits.push(cell.is_solid());
        i = i + 1;
    }
    let r = BoundaryMask { bits };
    proof {
        assert forall|u: int, v: int| 0 <= u < 16 && 0 <= v < 16 implies r.solid_at(u, v)
            == g.solid_at(
            boundary_source_cell(dir_index(d), u, v).0,
            boundary_source_cell(dir_index(d), u, v).1,
            boundary_source_cell(dir_index(d), u, v).2,
        ) by {
            let j = u * 16 + v;
            lemma_fundamental_div_mod_converse_div(j, 16, u, v);
            lemma_fundamental_div_mod_converse_mod(j, 16, u, v);
        }
    }
    r
}

/// What the mesher knows about the six adjacent chunks: a boundary mask per
/// side, or `None` when the neighbor chunk is absent or not yet generated.
/// An absent side is treated as solid (no face emitted toward it).
pub struct Neighborhood {
    pub front: Option<BoundaryMask>,
    pub back: Option<BoundaryMask>,
    pub top: Option<BoundaryMask>,
    pub bottom: Option<BoundaryMask>,
    pub right: Option<BoundaryMask>,
    pub left: Option<BoundaryMask>,
}

impl Neighborhood {
    /// The mask toward direction index `d`.
    pub open spec fn plane(self, d: int) -> Option<BoundaryMask> {
        if d == 0 {
            self.front
        } else if d == 1 {
            self.back
        } else if d == 2 {
            self.top
        } else if d == 3 {
            self.bottom
        } else if d == 4 {
            self.right
        } else {
            self.left
        }
    }

    pub open spec fn wf(self) -> bool {
        forall|d: int| 0 <= d < 6 ==> (#[trigger] self.plane(d)) is Some ==> self.plane(
            d,
        )->Some_0.wf()
    }

    /// A neighborhood with no neighbor known on any side: every boundary is
    /// treated as solid.
    pub fn absent() -> (r: Neighborhood)
        ensures
            r.wf(),
            forall|d: int| 0 <= d < 6 ==> (#[trigger] r.plane(d)) is None,
    {
        Neighborhood { front: None, back: None, top: None, bottom: None, right: None, left: None }
    }

    /// Runtime boundary lookup: whether the neighbor cell that the block
    /// `(x, y, z)` touches in direction `d` is solid (or assumed solid
    /// because the neighbor is unknown).
    pub fn solid_toward(&self, d: Direction, x: usize, y: usize, z: usize) -> (r: bool)
        requires
            self.wf(),
            x < 16,
            y < 16,
            z < 16,
        ensures
            r == boundary_solid(*self, dir_index(d), x as int, y as int, z as int),
    {
        let di: usize = match d {
            Direction::Front => 0,
            Direction::Back => 1,
            Direction::Top => 2,
            Direction::Bottom => 3,
            Direction::Right => 4,
            Direction::Left => 5,
        };
        let plane = match d {
            Direction::Front => &self.front,
            Direction::Back => &self.back,
            Direction::Top => &self.top,
            Direction::Bottom => &self.bottom,
            Direction::Right => &self.right,
            Direction::Left => &self.left,
        };
        proof {
            assert(*plane == self.plane(di as int));
            assert(self.plane(di as int) is Some ==> self.plane(di as int)->Some_0.wf());
        }
        match plane {
            Option::None => true,
            Option::Some(mask) => {
                let u = if di <= 3 { x } else { y };
                let v = if di <= 1 { y } else { z };
                mask.bits[u * 16 + v]
            },
        }
    }
}

/// The boundary-layer coordinate pair the home block `(x, y, z)` projects to
/// for a lookup in direction `d`: the two coordinates not on `d`'s axis, in
/// axis order.
pub open spec fn boundary_uv(d: int, x: int, y: int, z: int) -> (int, int) {
    (if d <= 3 { x } else { y }, if d <= 1 { y } else { z })
}

/// Whether the out-of-chunk neighbor of `(x, y, z)` in direction `d` counts
/// as solid: what the mask says, or solid when the neighbor is unknown.
pub open spec fn boundary_solid(nb: Neighborhood, d: int, x: int, y: int, z: int) -> bool {
    match nb.plane(d) {
        Option::None => true,
        Option::Some(mask) => mask.solid_at(boundary_uv(d, x, y, z).0, boundary_uv(d, x, y, z).1),
    }
}

/// Whether the neighbor of `(x, y, z)` in direction `d` counts as solid:
/// consulted in the chunk's own grid when it lies inside, through the
/// neighborhood when it lies outside.
pub open spec fn neighbor_is_solid(
    g: BlockGrid,
    nb: Neighborhood,
    x: int,
    y: int,
    z: int,
    d: int,
) -> bool {
    let v = dvec(d);
    let nx = x + v.0;
    let ny = y + v.1;
    let nz = z + v.2;
    if in_chunk(nx, ny, nz) {
        g.solid_at(nx, ny, nz)
    } else {
        boundary_solid(nb, d, x, y, z)
    }
}

/// Whether face slot `fi` is exposed: its block is solid and the neighbor it
/// faces is not.
pub open spec fn face_visible(g: BlockGrid, nb: Neighborhood, fi: int) -> bool {
    let bi = face_block(fi);
    let x = idx_x(bi);
    let y = idx_y(bi);
    let z = idx_z(bi);
    g.solid_at(x, y, z) && !neighbor_is_solid(g, nb, x, y, z, face_dir(fi))
}

/// The exposed faces among the first `n` face slots, in slot order.
pub open spec fn faces_up_to(g: BlockGrid, nb: Neighborhood, n: nat) -> Seq<FaceId>
    decreases n,
{
    if n == 0 {
        Seq::empty()
    } else {
        let prev = faces_up_to(g, nb, (n - 1) as nat);
        if face_visible(g, nb, n - 1) {
            prev.push(face_of(n - 1))
        } else {
            prev
        }
    }
}

/// Every face the mesher emits for this chunk, in the fixed deterministic
/// order.
pub open spec fn culled_faces(g: BlockGrid, nb: Neighborhood) -> Seq<FaceId> {
    faces_up_to(g, nb, 24576)
}

/// The translation of face `f`'s quad: the owning block's center in
/// half-block units.
pub open spec fn face_translation(f: FaceId) -> Vec3i {
    Vec3i { x: (2 * f.0) as i32, y: (2 * f.1) as i32, z: (2 * f.2) as i32 }
}

/// Corner `k` of face `f`'s quad: the direction's template corner moved to
/// the owning block.
pub open spec fn face_vertex(f: FaceId, k: int) -> Vertex {
    translated_spec(template_vertices(dir_from_index(f.3))[k], face_translation(f))
}

/// The four corners of face `f`'s quad.
pub open spec fn face_vertices_seq(f: FaceId) -> Seq<Vertex> {
    Seq::new(4, |k: int| face_vertex(f, k))
}

/// Triangle `k` of face `f`'s quad, with local indices rebased onto the
/// merged vertex buffer at `base`.
pub open spec fn face_triangle(f: FaceId, base: int, k: int) -> Triangle {
    let t = template_triangles(dir_from_index(f.3))[k];
    Triangle { a: (base + t.a) as u32, b: (base + t.b) as u32, c: (base + t.c) as u32 }
}

/// The merged vertex buffer of a face list: four corners per face, in face
/// order.
pub open spec fn mesh_vertices(faces: Seq<FaceId>) -> Seq<Vertex>
    decreases faces.len(),
{
    if faces.len() == 0 {
        Seq::empty()
    } else {
        mesh_vertices(faces.drop_last()) + face_vertices_seq(faces.last())
    }
}

/// The merged triangle buffer of a face list: two triangles per face, with
/// indices rebased past the preceding faces' corners.
pub open spec fn mesh_triangles(faces: Seq<FaceId>) -> Seq<Triangle>
    decreases faces.len(),
{
    if faces.len() == 0 {
        Seq::empty()
    } else {
        mesh_triangles(faces.drop_last()) + seq![
            face_triangle(faces.last(), 4 * (faces.len() - 1), 0),
            face_triangle(faces.last(), 4 * (faces.len() - 1), 1),
        ]
    }
}

/// A chunk's surface payload: the merged vertex and triangle buffers.
pub struct MeshData {
    pub vertices: Vec<Vertex>,
    pub triangles: Vec<Triangle>,
}

impl MeshData {
    /// A mesh encodes a face list when its buffers are exactly that list's
    /// merged buffers.
    pub open spec fn encodes(self, faces: Seq<FaceId>) -> bool {
        self.vertices@ == mesh_vertices(faces) && self.triangles@ == mesh_triangles(faces)
    }

    pub fn vertex_count(&self) -> (r: usize)
        ensures
            r == self.vertices@.len(),
    {
        self.vertices.len()
    }

    pub fn triangle_count(&self) -> (r: usize)
        ensures
            r == self.triangles@.len(),
    {
        self.triangles.len()
    }
}

/// The vertex buffer grows by exactly four corners per face.
pub proof fn lemma_mesh_vertices_len(faces: Seq<FaceId>)
    ensures
        mesh_vertices(faces).len() == 4 * faces.len(),
    decreases faces.len(),
{
    if faces.len() > 0 {
        lemma_mesh_vertices_len(faces.drop_last());
    }
}

/// The triangle buffer grows by exactly two triangles per face.
pub proof fn lemma_mesh_triangles_len(faces: Seq<FaceId>)
    ensures
        mesh_triangles(faces).len() == 2 * faces.len(),
    decreases faces.len(),
{
    if faces.len() > 0 {
        lemma_mesh_triangles_len(faces.drop_last());
    }
}

/// At most one face per slot.
pub proof fn lemma_faces_up_to_len(g: BlockGrid, nb: Neighborhood, n: nat)
    ensures
        faces_up_to(g, nb, n).len() <= n,
    decreases n,
{
    if n > 0 {
        lemma_faces_up_to_len(g, nb, (n - 1) as nat);
    }
}

/// Builds the surface of one chunk: walks every face slot in the fixed
/// order and emits a quad (four translated template corners and two rebased
/// template triangles) for exactly the exposed faces.  The result is the
/// canonical encoding of [`culled_faces`] — meshing is a pure function of
/// the grid and the neighborhood.
///
/// A chunk with no solid blocks yields empty buffers: a valid surface that
/// renders nothing.
#[verifier::rlimit(100)]
pub fn build_mesh(grid: &BlockGrid, nb: &Neighborhood) -> (m: MeshData)
    requires
        grid.wf(),
        nb.wf(),
    ensures
        m.encodes(culled_faces(*grid, *nb)),
{
    let mut vertices: Vec<Vertex> = Vec::new();
    let mut triangles: Vec<Triangle> = Vec::new();
    let mut fi: usize = 0;
    while fi < FACE_SLOTS
        invariant
            grid.wf(),
            nb.wf(),
            fi <= 24576,
            vertices@ == mesh_vertices(faces_up_to(*grid, *nb, fi as nat)),
            triangles@ == mesh_triangles(faces_up_to(*grid, *nb, fi as nat)),
        decreases 24576 - fi,
    {
        let bi = fi / 6;
        let d = fi % 6;
        let x = bi / 16 / 16;
        let y = (bi / 16) % 16;
        let z = bi % 16;
        proof {
            lemma_fundamental_div_mod(fi as int, 6);
            lemma_fundamental_div_mod(bi as int, 16);
            lemma_fundamental_div_mod(bi as int / 16, 16);
            assert(bi < 4096);
            assert(x < 16 && y < 16 && z < 16);
            assert(grid_index(x as int, y as int, z as int) == bi);
            assert(face_of(fi as int) == (x as int, y as int, z as int, d as int));
        }
        if grid.blocks[bi].is_solid() {
            let dir = Direction::from_index(d);
            let (vx, vy, vz) = dir.vector();
            let nx = x as i32 + vx;
            let ny = y as i32 + vy;
            let nz = z as i32 + vz;
            let covered: bool = if 0 <= nx && nx < 16 && 0 <= ny && ny < 16 && 0 <= nz && nz < 16 {
                grid.get(nx as usize, ny as usize, nz as usize).is_solid()
            } else {
                nb.solid_toward(dir, x, y, z)
            };
            proof {
                assert(covered == neighbor_is_solid(
                    *grid,
                    *nb,
                    x as int,
                    y as int,
                    z as int,
                    d as int,
                ));
            }
            if !covered {
                let ghost prev = faces_up_to(*grid, *nb, fi as nat);
                let ghost f = face_of(fi as int);
                proof {
                    assert(face_visible(*grid, *nb, fi as int));
                    lemma_faces_up_to_len(*grid, *nb, fi as nat);
                    lemma_mesh_vertices_len(prev);
                    lemma_mesh_triangles_len(prev);
                }
                let base = vertices.len();
                let tmpl = dir.verticles();
                let t = Vec3i { x: 2 * (x as i32), y: 2 * (y as i32), z: 2 * (z as i32) };
                proof {
                    lemma_template_vertex_bounds(dir, 0);
                    lemma_template_vertex_bounds(dir, 1);
                    lemma_template_vertex_bounds(dir, 2);
                    lemma_template_vertex_bounds(dir, 3);
                }
                vertices.push(translated(&tmpl[0], t));
                vertices.push(translated(&tmpl[1], t));
                vertices.push(translated(&tmpl[2], t));
                vertices.push(translated(&tmpl[3], t));
                let tris = dir.triangles();
                proof {
                    lemma_template_triangle_bounds(dir, 0);
                    lemma_template_triangle_bounds(dir, 1);
                }
                let base32 = base as u32;
                triangles.push(
                    Triangle {
                        a: base32 + tris[0].a,
                        b: base32 + tris[0].b,
                        c: base32 + tris[0].c,
                    },
                );
                triangles.push(
                    Triangle {
                        a: base32 + tris[1].a,
                        b: base32 + tris[1].b,
                        c: base32 + tris[1].c,
                    },
                );
                proof {
                    let next = faces_up_to(*grid, *nb, (fi + 1) as nat);
                    assert(next == prev.push(f));
                    assert(prev.push(f).drop_last() =~= prev);
                    assert(prev.push(f).last() == f);
                    assert(face_translation(f) == t);
                    assert(vertices@ =~= mesh_vertices(prev) + face_vertices_seq(f));
                    assert(mesh_vertices(next) == mesh_vertices(prev) + face_vertices_seq(f));
                    assert(triangles@ =~= mesh_triangles(prev) + seq![
                        face_triangle(f, base as int, 0),
                        face_triangle(f, base as int, 1),
                    ]);
                    assert(mesh_triangles(next) == mesh_triangles(prev) + seq![
                        face_triangle(f, 4 * (next.len() - 1), 0),
                        face_triangle(f, 4 * (next.len() - 1), 1),
                    ]);
                }
            } else {
                proof {
                    assert(!face_visible(*grid, *nb, fi as int));
                    assert(faces_up_to(*grid, *nb, (fi + 1) as nat) == faces_up_to(
                        *grid,
                        *nb,
                        fi as nat,
                    ));
                }
            }
        } else {
            proof {
                assert(!face_visible(*grid, *nb, fi as int));
                assert(faces_up_to(*grid, *nb, (fi + 1) as nat) == faces_up_to(
                    *grid,
                    *nb,
                    fi as nat,
                ));
            }
        }
        fi = fi + 1;
    }
    MeshData { vertices, triangles }
}

/// The flat slot a face identity occupies in the enumeration.
pub open spec fn slot_of(f: FaceId) -> int {
    grid_index(f.0, f.1, f.2) * 6 + f.3
}

/// A well-formed face is the face of its own slot.
pub proof fn lemma_face_of_slot(f: FaceId)
    requires
        face_wf(f),
    ensures
        0 <= slot_of(f) < 24576,
        face_of(slot_of(f)) == f,
{
    let bi = grid_index(f.0, f.1, f.2);
    let fi = slot_of(f);
    lemma_fundamental_div_mod_converse_div(fi, 6, bi, f.3);
    lemma_fundamental_div_mod_converse_mod(fi, 6, bi, f.3);
    lemma_fundamental_div_mod_converse_div(bi, 16, f.0 * 16 + f.1, f.2);
    lemma_fundamental_div_mod_converse_mod(bi, 16, f.0 * 16 + f.1, f.2);
    lemma_fundamental_div_mod_converse_div(f.0 * 16 + f.1, 16, f.0, f.1);
    lemma_fundamental_div_mod_converse_mod(f.0 * 16 + f.1, 16, f.0, f.1);
}

/// Every slot decodes to a well-formed face whose slot it is.
pub proof fn lemma_slot_of_face(fi: int)
    requires
        0 <= fi < 24576,
    ensures
        face_wf(face_of(fi)),
        slot_of(face_of(fi)) == fi,
{
    lemma_fundamental_div_mod(fi, 6);
    lemma_fundamental_div_mod(face_block(fi), 16);
    lemma_fundamental_div_mod(face_block(fi) / 16, 16);
}

/// Structure of the emitted face list: every entry is a well-formed face,
/// visible at its own slot, the slots stay below `n`, and they strictly
/// increase along the list — so no face is ever emitted twice.
pub proof fn lemma_faces_up_to_invariants(g: BlockGrid, nb: Neighborhood, n: nat)
    requires
        n <= 24576,
    ensures
        forall|i: int|
            0 <= i < faces_up_to(g, nb, n).len() ==> {
                let e = #[trigger] faces_up_to(g, nb, n)[i];
                face_wf(e) && face_visible(g, nb, slot_of(e)) && slot_of(e) < n
            },
        forall|i: int, j: int|
            0 <= i < j < faces_up_to(g, nb, n).len() ==> slot_of(faces_up_to(g, nb, n)[i])
                < slot_of(faces_up_to(g, nb, n)[j]),
    decreases n,
{
    if n > 0 {
        lemma_faces_up_to_invariants(g, nb, (n - 1) as nat);
        let prev = faces_up_to(g, nb, (n - 1) as nat);
        let s = faces_up_to(g, nb, n);
        if face_visible(g, nb, n - 1) {
            lemma_slot_of_face(n - 1);
            assert(s == prev.push(face_of(n - 1)));
            assert forall|i: int| 0 <= i < s.len() implies {
                let e = #[trigger] s[i];
                face_wf(e) && face_visible(g, nb, slot_of(e)) && slot_of(e) < n
            } by {
                if i < prev.len() {
                    assert(s[i] == prev[i]);
                } else {
                    assert(s[i] == face_of(n - 1));
                }
            }
            assert forall|i: int, j: int| 0 <= i < j < s.len() implies slot_of(s[i]) < slot_of(
                s[j],
            ) by {
                if j < prev.len() {
                    assert(s[i] == prev[i] && s[j] == prev[j]);
                } else {
                    assert(s[i] == prev[i] && s[j] == face_of(n - 1));
                }
            }
        } else {
            assert(s == prev);
            assert forall|i: int| 0 <= i < s.len() implies {
                let e = #[trigger] s[i];
                face_wf(e) && face_visible(g, nb, slot_of(e)) && slot_of(e) < n
            } by {
                assert(s[i] == prev[i]);
            }
        }
    }
}

/// A face is in the emitted list exactly when its slot is visible.
pub proof fn lemma_faces_up_to_contains(g: BlockGrid, nb: Neighborhood, n: nat, fi: int)
    requires
        0 <= fi < n <= 24576,
    ensures
        faces_up_to(g, nb, n).contains(face_of(fi)) <==> face_visible(g, nb, fi),
    decreases n,
{
    let s = faces_up_to(g, nb, n);
    let prev = faces_up_to(g, nb, (n - 1) as nat);
    lemma_slot_of_face(fi);
    if fi == n - 1 {
        lemma_faces_up_to_invariants(g, nb, (n - 1) as nat);
        if face_visible(g, nb, fi) {
            assert(s[s.len() - 1] == face_of(fi));
            assert(s.contains(face_of(fi)));
        } else {
            if prev.contains(face_of(fi)) {
                let i = choose|i: int| 0 <= i < prev.len() && prev[i] == face_of(fi);
                assert(slot_of(prev[i]) < n - 1);
            }
        }
    } else {
        lemma_faces_up_to_contains(g, nb, (n - 1) as nat, fi);
        if face_visible(g, nb, n - 1) {
            lemma_slot_of_face(n - 1);
            assert(face_of(fi) != face_of(n - 1));
            assert(s == prev.push(face_of(n - 1)));
            if prev.contains(face_of(fi)) {
                let i = choose|i: int| 0 <= i < prev.len() && prev[i] == face_of(fi);
                assert(s[i] == face_of(fi));
                assert(s.contains(face_of(fi)));
            }
            if s.contains(face_of(fi)) {
                let i = choose|i: int| 0 <= i < s.len() && s[i] == face_of(fi);
                if i < prev.len() {
                    assert(prev[i] == face_of(fi));
                    assert(prev.contains(face_of(fi)));
                } else {
                    assert(s[i] == face_of(n - 1));
                }
            }
        }
    }
}

/// No face occurs twice in the emitted list.
pub proof fn lemma_culled_faces_distinct(g: BlockGrid, nb: Neighborhood)
    ensures
        forall|i: int, j: int|
            0 <= i < j < culled_faces(g, nb).len() ==> culled_faces(g, nb)[i] != culled_faces(
                g,
                nb,
            )[j],
{
    lemma_faces_up_to_invariants(g, nb, 24576);
}

/// The mesher's face list contains the face of `(x, y, z)` toward `d`
/// exactly when that block is solid and the neighbor it faces is not.
pub proof fn lemma_culled_faces_membership(
    g: BlockGrid,
    nb: Neighborhood,
    x: int,
    y: int,
    z: int,
    d: int,
)
    requires
        in_chunk(x, y, z),
        0 <= d < 6,
    ensures
        culled_faces(g, nb).contains((x, y, z, d)) <==> (g.solid_at(x, y, z)
            && !neighbor_is_solid(g, nb, x, y, z, d)),
{
    let f = (x, y, z, d);
    lemma_face_of_slot(f);
    lemma_faces_up_to_contains(g, nb, 24576, slot_of(f));
}

/// The opposite direction index: its offset vector is the negation, and it
/// is again a direction index.
pub open spec fn opp_index(d: int) -> int {
    dir_index(crate::direction::opposite_spec(dir_from_index(d)))
}

pub proof fn lemma_opposite_vec(d: int)
    requires
        0 <= d < 6,
    ensures
        0 <= opp_index(d) < 6,
        dvec(opp_index(d)).0 == -dvec(d).0,
        dvec(opp_index(d)).1 == -dvec(d).1,
        dvec(opp_index(d)).2 == -dvec(d).2,
        opp_index(opp_index(d)) == d,
{
    if d == 0 {
        assert(opp_index(0) == 1);
    } else if d == 1 {
        assert(opp_index(1) == 0);
    } else if d == 2 {
        assert(opp_index(2) == 3);
    } else if d == 3 {
        assert(opp_index(3) == 2);
    } else if d == 4 {
        assert(opp_index(4) == 5);
    } else {
        assert(opp_index(5) == 4);
    }
}

/// Face-culling correctness inside one chunk: for a pair of adjacent solid
/// blocks, the shared face is emitted by neither side.
pub proof fn lemma_face_culling(g: BlockGrid, nb: Neighborhood, x: int, y: int, z: int, d: int)
    requires
        g.wf(),
        in_chunk(x, y, z),
        0 <= d < 6,
        in_chunk(x + dvec(d).0, y + dvec(d).1, z + dvec(d).2),
        g.solid_at(x, y, z),
        g.solid_at(x + dvec(d).0, y + dvec(d).1, z + dvec(d).2),
    ensures
        !culled_faces(g, nb).contains((x, y, z, d)),
        !culled_faces(g, nb).contains(
            (x + dvec(d).0, y + dvec(d).1, z + dvec(d).2, opp_index(d)),
        ),
{
    lemma_opposite_vec(d);
    lemma_culled_faces_membership(g, nb, x, y, z, d);
    lemma_culled_faces_membership(
        g,
        nb,
        x + dvec(d).0,
        y + dvec(d).1,
        z + dvec(d).2,
        opp_index(d),
    );
}

/// Boundary completeness inside one chunk: where exactly one of a pair of
/// adjacent blocks is solid, the face between them is emitted exactly once,
/// attributed to the solid side.
pub proof fn lemma_boundary_completeness(
    g: BlockGrid,
    nb: Neighborhood,
    x: int,
    y: int,
    z: int,
    d: int,
)
    requires
        g.wf(),
        in_chunk(x, y, z),
        0 <= d < 6,
        in_chunk(x + dvec(d).0, y + dvec(d).1, z + dvec(d).2),
        g.solid_at(x, y, z) != g.solid_at(x + dvec(d).0, y + dvec(d).1, z + dvec(d).2),
    ensures
        g.solid_at(x, y, z) ==> culled_faces(g, nb).contains((x, y, z, d))
            && !culled_faces(g, nb).contains(
            (x + dvec(d).0, y + dvec(d).1, z + dvec(d).2, opp_index(d)),
        ),
        !g.solid_at(x, y, z) ==> !culled_faces(g, nb).contains((x, y, z, d))
            && culled_faces(g, nb).contains(
            (x + dvec(d).0, y + dvec(d).1, z + dvec(d).2, opp_index(d)),
        ),
{
    lemma_opposite_vec(d);
    lemma_culled_faces_membership(g, nb, x, y, z, d);
    lemma_culled_faces_membership(
        g,
        nb,
        x + dvec(d).0,
        y + dvec(d).1,
        z + dvec(d).2,
        opp_index(d),
    );
}

/// Winding/normal consistency of a merged surface: every triangle's indices
/// land in the vertex buffer, and the geometric normal computed from its
/// winding points along the offset vector of the face's direction (their
/// dot product is positive).
pub proof fn lemma_mesh_winding(faces: Seq<FaceId>, ti: int)
    requires
        faces.len() <= 24576,
        forall|i: int| 0 <= i < faces.len() ==> face_wf(#[trigger] faces[i]),
        0 <= ti < mesh_triangles(faces).len(),
    ensures
        ({
            let t = mesh_triangles(faces)[ti];
            let vs = mesh_vertices(faces);
            let f = faces[ti / 2];
            &&& t.a < vs.len()
            &&& t.b < vs.len()
            &&& t.c < vs.len()
            &&& 4 * (ti / 2) <= t.a < 4 * (ti / 2) + 4
            &&& 4 * (ti / 2) <= t.b < 4 * (ti / 2) + 4
            &&& 4 * (ti / 2) <= t.c < 4 * (ti / 2) + 4
            &&& dot(triangle_normal(vs[t.a as int], vs[t.b as int], vs[t.c as int]), dvec(f.3))
                > 0
        }),
    decreases faces.len(),
{
    lemma_mesh_triangles_len(faces);
    lemma_mesh_vertices_len(faces);
    let n = faces.len() as int;
    let prev = faces.drop_last();
    lemma_mesh_triangles_len(prev);
    lemma_mesh_vertices_len(prev);
    let t = mesh_triangles(faces)[ti];
    let vs = mesh_vertices(faces);
    if ti < 2 * (n - 1) {
        lemma_fundamental_div_mod(ti, 2);
        lemma_mesh_winding(prev, ti);
        assert(mesh_triangles(faces)[ti] == mesh_triangles(prev)[ti]);
        assert(faces[ti / 2] == prev[ti / 2]);
        let tp = mesh_triangles(prev)[ti];
        assert(vs[tp.a as int] == mesh_vertices(prev)[tp.a as int]);
        assert(vs[tp.b as int] == mesh_vertices(prev)[tp.b as int]);
        assert(vs[tp.c as int] == mesh_vertices(prev)[tp.c as int]);
    } else {
        let k = ti - 2 * (n - 1);
        let f = faces.last();
        let base = 4 * (n - 1);
        lemma_fundamental_div_mod_converse_div(ti, 2, n - 1, k);
        let dir = dir_from_index(f.3);
        lemma_template_triangle_bounds(dir, k);
        let tt = template_triangles(dir)[k];
        assert(mesh_triangles(faces)[ti] == face_triangle(f, base, k));
        assert(t.a == base + tt.a && t.b == base + tt.b && t.c == base + tt.c);
        assert(vs[t.a as int] == face_vertices_seq(f)[tt.a as int]);
        assert(vs[t.b as int] == face_vertices_seq(f)[tt.b as int]);
        assert(vs[t.c as int] == face_vertices_seq(f)[tt.c as int]);
        assert(vs[t.a as int] == face_vertex(f, tt.a as int));
        let trans = face_translation(f);
        lemma_template_vertex_bounds(dir, tt.a as int);
        lemma_template_vertex_bounds(dir, tt.b as int);
        lemma_template_vertex_bounds(dir, tt.c as int);
        lemma_template_winding(dir, k);
        crate::direction::lemma_translated_normal(
            template_vertices(dir)[tt.a as int],
            template_vertices(dir)[tt.b as int],
            template_vertices(dir)[tt.c as int],
            trans,
        );
    }
}

/// Winding/normal consistency of the surface the mesher extracts for a
/// chunk.
pub proof fn lemma_surface_winding(g: BlockGrid, nb: Neighborhood, ti: int)
    requires
        g.wf(),
        nb.wf(),
        0 <= ti < mesh_triangles(culled_faces(g, nb)).len(),
    ensures
        ({
            let t = mesh_triangles(culled_faces(g, nb))[ti];
            let vs = mesh_vertices(culled_faces(g, nb));
            let f = culled_faces(g, nb)[ti / 2];
            &&& t.a < vs.len()
            &&& t.b < vs.len()
            &&& t.c < vs.len()
            &&& dot(triangle_normal(vs[t.a as int], vs[t.b as int], vs[t.c as int]), dvec(f.3))
                > 0
        }),
{
    lemma_faces_up_to_invariants(g, nb, 24576);
    lemma_faces_up_to_len(g, nb, 24576);
    lemma_mesh_winding(culled_faces(g, nb), ti);
}

/// Idempotent meshing: extraction is a pure function of the grid and the
/// neighborhood, so meshing an unchanged chunk twice yields geometrically
/// identical buffers.
pub proof fn lemma_meshing_idempotent(
    g: BlockGrid,
    nb: Neighborhood,
    m1: MeshData,
    m2: MeshData,
)
    requires
        m1.encodes(culled_faces(g, nb)),
        m2.encodes(culled_faces(g, nb)),
    ensures
        m1.vertices@ == m2.vertices@,
        m1.triangles@ == m2.triangles@,
{
}

} // verus!
