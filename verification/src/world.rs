//! The authoritative chunk registry: a mapping from chunk coordinate to
//! chunk, owned exclusively by the integration layer, plus the load/unload
//! policy around a moving focal point.
//!
//! The policy is hysteretic: every coordinate within `ACTIVE_RADIUS`
//! (Chebyshev distance) of the focal point is present in some state, and
//! every present coordinate lies within `ACTIVE_RADIUS + UNLOAD_MARGIN`.
//! The margin keeps chunks from thrashing in and out at the boundary.
//! A chunk that leaves the outer band is destroyed outright: its entry is
//! removed, never kept as a tombstone.

use vstd::arithmetic::div_mod::lemma_fundamental_div_mod;
use vstd::arithmetic::div_mod::lemma_fundamental_div_mod_converse_div;
use vstd::arithmetic::div_mod::lemma_fundamental_div_mod_converse_mod;
use vstd::prelude::*;

use crate::algorithm::boundary_mask_of;
use crate::algorithm::boundary_source_cell;
use crate::algorithm::boundary_uv;
use crate::algorithm::build_mesh;
use crate::algorithm::culled_faces;
use crate::algorithm::dvec;
use crate::algorithm::lemma_culled_faces_membership;
use crate::algorithm::lemma_opposite_vec;
use crate::algorithm::opp_index;
use crate::algorithm::BoundaryMask;
use crate::algorithm::MeshData;
use crate::algorithm::Neighborhood;
use crate::block::BlockKind;
use crate::chunk::in_chunk;
use crate::chunk::BlockGrid;
use crate::chunk::Chunk;
use crate::chunk::ChunkCoord;
use crate::chunk::ChunkState;
use crate::direction::dir_index;
use crate::direction::Direction;

verus! {

/// Chebyshev radius of the set of coordinates that must be loaded around
/// the focal point.
pub const ACTIVE_RADIUS: i32 = 2;

/// Extra Chebyshev distance a loaded chunk may drift from the focal point
/// before it is destroyed.
pub const UNLOAD_MARGIN: i32 = 1;

/// Whether `a` lies within Chebyshev distance `r` of `b`.
pub open spec fn within(a: (int, int, int), b: (int, int, int), r: int) -> bool {
    &&& -r <= a.0 - b.0 <= r
    &&& -r <= a.1 - b.1 <= r
    &&& -r <= a.2 - b.2 <= r
}

/// Focal coordinates the world accepts: far enough from the addressable
/// world's edge that the whole loaded band stays inside it.
pub open spec fn focal_ok(c: (int, int, int)) -> bool {
    &&& -99996 <= c.0 <= 99996
    &&& -99996 <= c.1 <= 99996
    &&& -99996 <= c.2 <= 99996
}

/// Whether some entry of `s` sits at coordinate `c`.
pub open spec fn seq_contains_coord(s: Seq<Chunk>, c: (int, int, int)) -> bool {
    exists|i: int| 0 <= i < s.len() && s[i].coord.key() == c
}

/// The index of the entry at coordinate `c` (meaningful when coordinates
/// are unique and `c` is present).
pub open spec fn seq_index_of(s: Seq<Chunk>, c: (int, int, int)) -> int {
    choose|i: int| 0 <= i < s.len() && s[i].coord.key() == c
}

/// No coordinate owns two entries.
pub open spec fn coords_unique(s: Seq<Chunk>) -> bool {
    forall|i: int, j: int| 0 <= i < j < s.len() ==> s[i].coord.key() != s[j].coord.key()
}

/// With unique coordinates, the entry found at an index is the entry looked
/// up by its coordinate.
pub proof fn lemma_index_of_unique(s: Seq<Chunk>, c: (int, int, int), i: int)
    requires
        coords_unique(s),
        0 <= i < s.len(),
        s[i].coord.key() == c,
    ensures
        seq_contains_coord(s, c),
        seq_index_of(s, c) == i,
{
    assert(seq_contains_coord(s, c));
    let j = seq_index_of(s, c);
    if j != i {
        if j < i {
            assert(s[j].coord.key() != s[i].coord.key());
        } else {
            assert(s[i].coord.key() != s[j].coord.key());
        }
    }
}

/// A chunk entry as `update_focal_point` creates it: freshly requested,
/// empty-handed.
pub open spec fn fresh_requested(ch: Chunk, c: (int, int, int)) -> bool {
    &&& ch.coord.key() == c
    &&& ch.state == ChunkState::Requested
    &&& ch.grid is None
    &&& ch.mesh is None
    &&& !ch.dirty
}

/// Slot of coordinate `c` in the 5×5×5 active cube around `f` (meaningful
/// when `within(c, f, 2)`).
pub open spec fn cube_slot(f: (int, int, int), c: (int, int, int)) -> int {
    ((c.0 - f.0 + 2) * 5 + (c.1 - f.1 + 2)) * 5 + (c.2 - f.2 + 2)
}

/// Coordinate of slot `k` of the 5×5×5 active cube around `f`.
pub open spec fn cube_coord(f: (int, int, int), k: int) -> (int, int, int) {
    (f.0 + (k / 5) / 5 - 2, f.1 + (k / 5) % 5 - 2, f.2 + k % 5 - 2)
}

/// Each cube slot decodes to a coordinate in the active radius whose slot
/// it is.
pub proof fn lemma_cube_coord(f: (int, int, int), k: int)
    requires
        0 <= k < 125,
    ensures
        within(cube_coord(f, k), f, 2),
        cube_slot(f, cube_coord(f, k)) == k,
{
    lemma_fundamental_div_mod(k, 5);
    lemma_fundamental_div_mod(k / 5, 5);
}

/// Each coordinate in the active radius is the coordinate of its own slot.
pub proof fn lemma_cube_slot(f: (int, int, int), c: (int, int, int))
    requires
        within(c, f, 2),
    ensures
        0 <= cube_slot(f, c) < 125,
        cube_coord(f, cube_slot(f, c)) == c,
{
    let k = cube_slot(f, c);
    lemma_fundamental_div_mod_converse_div(k, 5, (c.0 - f.0 + 2) * 5 + (c.1 - f.1 + 2), c.2 - f.2 + 2);
    lemma_fundamental_div_mod_converse_mod(k, 5, (c.0 - f.0 + 2) * 5 + (c.1 - f.1 + 2), c.2 - f.2 + 2);
    lemma_fundamental_div_mod_converse_div(
        (c.0 - f.0 + 2) * 5 + (c.1 - f.1 + 2),
        5,
        c.0 - f.0 + 2,
        c.1 - f.1 + 2,
    );
    lemma_fundamental_div_mod_converse_mod(
        (c.0 - f.0 + 2) * 5 + (c.1 - f.1 + 2),
        5,
        c.0 - f.0 + 2,
        c.1 - f.1 + 2,
    );
}

/// The chunk registry and its load/unload policy.
pub struct World {
    pub chunks: Vec<Chunk>,
    pub focal: ChunkCoord,
}

impl World {
    /// Whether the coordinate `c` is present (in any non-destroyed state).
    pub open spec fn contains_coord(self, c: (int, int, int)) -> bool {
        seq_contains_coord(self.chunks@, c)
    }

    /// The chunk registered at `c`.
    pub open spec fn chunk_at(self, c: (int, int, int)) -> Chunk {
        self.chunks@[seq_index_of(self.chunks@, c)]
    }

    /// The registry invariant: unique keys, well-formed chunks, and the
    /// bounded working set — everything within the active radius is
    /// present, everything present is within radius plus margin.
    pub open spec fn wf(self) -> bool {
        &&& focal_ok(self.focal.key())
        &&& coords_unique(self.chunks@)
        &&& forall|i: int| 0 <= i < self.chunks@.len() ==> (#[trigger] self.chunks@[i]).wf()
        &&& forall|i: int|
            0 <= i < self.chunks@.len() ==> within(
                (#[trigger] self.chunks@[i]).coord.key(),
                self.focal.key(),
                3,
            )
        &&& forall|c: (int, int, int)|
            within(c, self.focal.key(), 2) ==> #[trigger] self.contains_coord(c)
    }

    /// Linear lookup of a coordinate's entry.
    pub fn find_index(&self, c: ChunkCoord) -> (r: Option<usize>)
        ensures
            match r {
                Some(i) => i < self.chunks@.len() && self.chunks@[i as int].coord == c
                    && self.contains_coord(c.key()),
                None => !self.contains_coord(c.key()),
            },
    {
        let n = self.chunks.len();
        let mut i: usize = 0;
        while i < n
            invariant
                n == self.chunks@.len(),
                i <= n,
                forall|j: int| 0 <= j < i ==> self.chunks@[j].coord.key() != c.key(),
            decreases n - i,
        {
            let e = &self.chunks[i];
            if e.coord.x == c.x && e.coord.y == c.y && e.coord.z == c.z {
                assert(self.chunks@[i as int].coord == c);
                return Some(i);
            }
            i = i + 1;
        }
        return None;
    }

    /// Creates a world focused at `focal`, with every coordinate of the
    /// active radius freshly requested.
    pub fn new(focal: ChunkCoord) -> (r: World)
        requires
            focal_ok(focal.key()),
        ensures
            r.wf(),
            r.focal == focal,
            forall|c: (int, int, int)|
                #[trigger] r.contains_coord(c) <==> within(c, focal.key(), 2),
            forall|c: (int, int, int)|
                r.contains_coord(c) ==> fresh_requested(#[trigger] r.chunk_at(c), c),
    {
        let mut w = World { chunks: Vec::new(), focal };
        w.fill_active();
        w
    }

    /// Requests every coordinate of the active radius that is not yet
    /// present.  Existing entries are untouched.
    fn fill_active(&mut self)
        requires
            focal_ok(old(self).focal.key()),
            coords_unique(old(self).chunks@),
            forall|i: int| 0 <= i < old(self).chunks@.len() ==> (#[trigger] old(self).chunks@[i]).wf(),
            forall|i: int|
                0 <= i < old(self).chunks@.len() ==> within(
                    (#[trigger] old(self).chunks@[i]).coord.key(),
                    old(self).focal.key(),
                    3,
                ),
        ensures
            final(self).wf(),
            final(self).focal == old(self).focal,
            forall|c: (int, int, int)|
                #[trigger] final(self).contains_coord(c) <==> old(self).contains_coord(c) || within(
                    c,
                    old(self).focal.key(),
                    2,
                ),
            forall|c: (int, int, int)|
                old(self).contains_coord(c)
                    ==> #[trigger] final(self).chunk_at(c) == old(self).chunk_at(c),
            forall|c: (int, int, int)|
                !old(self).contains_coord(c) && final(self).contains_coord(c) ==> fresh_requested(
                    #[trigger] final(self).chunk_at(c),
                    c,
                ),
    {
        let f = self.focal;
        let ghost fk = f.key();
        let mut k: usize = 0;
        while k < 125
            invariant
                self.focal == f,
                focal_ok(fk),
                f.key() == fk,
                k <= 125,
                coords_unique(self.chunks@),
                forall|i: int| 0 <= i < self.chunks@.len() ==> (#[trigger] self.chunks@[i]).wf(),
                forall|i: int|
                    0 <= i < self.chunks@.len() ==> within(
                        (#[trigger] self.chunks@[i]).coord.key(),
                        fk,
                        3,
                    ),
                forall|c: (int, int, int)|
                    #[trigger] seq_contains_coord(self.chunks@, c) <==> old(self).contains_coord(c)
                        || (within(c, fk, 2) && cube_slot(fk, c) < k),
                forall|c: (int, int, int)|
                    old(self).contains_coord(c) ==> #[trigger] self.chunk_at(c) == old(
                        self,
                    ).chunk_at(c),
                forall|c: (int, int, int)|
                    !old(self).contains_coord(c) && seq_contains_coord(self.chunks@, c)
                        ==> fresh_requested(#[trigger] self.chunk_at(c), c),
            decreases 125 - k,
        {
            let dx = k / 5 / 5;
            let dy = (k / 5) % 5;
            let dz = k % 5;
            proof {
                lemma_fundamental_div_mod(k as int, 5);
                lemma_fundamental_div_mod(k as int / 5, 5);
                assert(dx < 5 && dy < 5 && dz < 5);
            }
            let c = ChunkCoord::new(
                f.x + (dx as i32) - 2,
                f.y + (dy as i32) - 2,
                f.z + (dz as i32) - 2,
            );
            proof {
                assert(c.key() == cube_coord(fk, k as int));
                lemma_cube_coord(fk, k as int);
            }
            let ghost pre = *self;
            if self.find_index(c).is_none() {
                self.chunks.push(Chunk::new(c));
                proof {
                    let s = self.chunks@;
                    let p = pre.chunks@;
                    assert(s == p.push(self.chunks@[p.len() as int]));
                    assert forall|c2: (int, int, int)|
                        #[trigger] seq_contains_coord(s, c2) <==> (seq_contains_coord(p, c2) || c2
                            == c.key()) by {
                        if seq_contains_coord(s, c2) {
                            let i = choose|i: int| 0 <= i < s.len() && s[i].coord.key() == c2;
                            if i < p.len() {
                                assert(p[i].coord.key() == c2);
                                assert(seq_contains_coord(p, c2));
                            }
                        }
                        if seq_contains_coord(p, c2) {
                            let i = choose|i: int| 0 <= i < p.len() && p[i].coord.key() == c2;
                            assert(s[i].coord.key() == c2);
                            assert(seq_contains_coord(s, c2));
                        }
                        if c2 == c.key() {
                            assert(s[p.len() as int].coord.key() == c2);
                            assert(seq_contains_coord(s, c2));
                        }
                    }
                    assert(coords_unique(s)) by {
                        assert forall|i: int, j: int| 0 <= i < j < s.len() implies s[i].coord.key()
                            != s[j].coord.key() by {
                            if j < p.len() {
                                assert(p[i].coord.key() != p[j].coord.key());
                            } else {
                                assert(s[j].coord.key() == c.key());
                                if s[i].coord.key() == c.key() {
                                    assert(p[i].coord.key() == c.key());
                                    assert(seq_contains_coord(p, c.key()));
                                }
                            }
                        }
                    }
                    assert forall|c2: (int, int, int)| seq_contains_coord(p, c2) implies (
                    #[trigger] self.chunk_at(c2)) == pre.chunk_at(c2) by {
                        let i = seq_index_of(p, c2);
                        assert(p[i].coord.key() == c2);
                        assert(s[i] == p[i]);
                        lemma_index_of_unique(s, c2, i);
                    }
                    lemma_index_of_unique(s, c.key(), p.len() as int);
                    assert(fresh_requested(self.chunk_at(c.key()), c.key()));
                    assert forall|c2: (int, int, int)|
                        #[trigger] seq_contains_coord(s, c2) implies (old(self).contains_coord(c2)
                        || (within(c2, fk, 2) && cube_slot(fk, c2) < k + 1)) by {
                        if c2 == c.key() {
                            lemma_cube_coord(fk, k as int);
                        } else {
                            assert(seq_contains_coord(p, c2));
                        }
                    }
                    assert forall|c2: (int, int, int)|
                        (old(self).contains_coord(c2) || (within(c2, fk, 2) && cube_slot(fk, c2) < k
                            + 1)) implies #[trigger] seq_contains_coord(s, c2) by {
                        if old(self).contains_coord(c2) || (within(c2, fk, 2) && cube_slot(fk, c2)
                            < k) {
                            assert(seq_contains_coord(p, c2));
                        } else if within(c2, fk, 2) && cube_slot(fk, c2) == k {
                            lemma_cube_slot(fk, c2);
                            assert(c2 == c.key());
                        }
                    }
                }
            } else {
                proof {
                    assert(seq_contains_coord(self.chunks@, c.key()));
                    assert forall|c2: (int, int, int)|
                        (old(self).contains_coord(c2) || (within(c2, fk, 2) && cube_slot(fk, c2) < k
                            + 1)) implies #[trigger] seq_contains_coord(self.chunks@, c2) by {
                        if within(c2, fk, 2) && cube_slot(fk, c2) == k {
                            lemma_cube_slot(fk, c2);
                            assert(c2 == c.key());
                        }
                    }
                }
            }
            k = k + 1;
        }
        proof {
            assert forall|c: (int, int, int)| within(c, fk, 2) implies #[trigger] self.contains_coord(
                c,
            ) by {
                lemma_cube_slot(fk, c);
            }
        }
    }

    /// Moves the focal point: chunks that fall outside the outer band are
    /// destroyed (their entries removed), coordinates entering the active
    /// radius are freshly requested, and everything kept is untouched.
    pub fn update_focal_point(&mut self, f: ChunkCoord)
        requires
            old(self).wf(),
            focal_ok(f.key()),
        ensures
            final(self).wf(),
            final(self).focal == f,
            forall|c: (int, int, int)|
                #[trigger] final(self).contains_coord(c) <==> ((old(self).contains_coord(c)
                    && within(c, f.key(), 3)) || within(c, f.key(), 2)),
            forall|c: (int, int, int)|
                old(self).contains_coord(c) && final(self).contains_coord(c)
                    ==> #[trigger] final(self).chunk_at(c) == old(self).chunk_at(c),
            forall|c: (int, int, int)|
                !old(self).contains_coord(c) && final(self).contains_coord(c) ==> fresh_requested(
                    #[trigger] final(self).chunk_at(c),
                    c,
                ),
    {
        let ghost fk = f.key();
        let n = self.chunks.len();
        let mut taken: Vec<Chunk> = Vec::new();
        core::mem::swap(&mut self.chunks, &mut taken);
        let ghost pre0 = taken@;
        let mut kept: Vec<Chunk> = Vec::new();
        let mut i: usize = 0;
        while i < n
            invariant
                n == pre0.len(),
                i <= n,
                fk == f.key(),
                coords_unique(pre0),
                forall|j: int| 0 <= j < n ==> (#[trigger] pre0[j]).wf(),
                taken@ == pre0.skip(i as int),
                forall|c: (int, int, int)|
                    #[trigger] seq_contains_coord(kept@, c) <==> (exists|j: int|
                        0 <= j < i && pre0[j].coord.key() == c && within(c, fk, 3)),
                forall|j: int|
                    0 <= j < kept@.len() ==> {
                        let e = #[trigger] kept@[j];
                        seq_contains_coord(pre0, e.coord.key()) && e == pre0[seq_index_of(
                            pre0,
                            e.coord.key(),
                        )]
                    },
                coords_unique(kept@),
                forall|j: int| 0 <= j < kept@.len() ==> (#[trigger] kept@[j]).wf(),
            decreases n - i,
        {
            let e = taken.remove(0);
            proof {
                assert(pre0.skip(i as int)[0] == pre0[i as int]);
                assert(e == pre0[i as int]);
                assert(taken@ =~= pre0.skip(i as int + 1));
            }
            let keep = {
                let bound = (ACTIVE_RADIUS + UNLOAD_MARGIN) as i64;
                let dx = e.coord.x as i64 - f.x as i64;
                let dy = e.coord.y as i64 - f.y as i64;
                let dz = e.coord.z as i64 - f.z as i64;
                -bound <= dx && dx <= bound && -bound <= dy && dy <= bound && -bound <= dz && dz
                    <= bound
            };
            proof {
                assert(keep == within(pre0[i as int].coord.key(), fk, 3));
            }
            let ghost prev = kept@;
            if keep {
                kept.push(e);
                proof {
                    let s = kept@;
                    lemma_index_of_unique(pre0, pre0[i as int].coord.key(), i as int);
                    assert(coords_unique(s)) by {
                        assert forall|j1: int, j2: int| 0 <= j1 < j2 < s.len() implies s[j1].coord.key()
                            != s[j2].coord.key() by {
                            if j2 < prev.len() {
                                assert(prev[j1].coord.key() != prev[j2].coord.key());
                            } else {
                                assert(s[j2] == pre0[i as int]);
                                if s[j1].coord.key() == s[j2].coord.key() {
                                    assert(seq_contains_coord(prev, s[j2].coord.key()));
                                    let jo = choose|j: int|
                                        0 <= j < i && pre0[j].coord.key() == s[j2].coord.key()
                                            && within(s[j2].coord.key(), fk, 3);
                                    assert(pre0[jo].coord.key() != pre0[i as int].coord.key());
                                }
                            }
                        }
                    }
                    assert forall|c: (int, int, int)|
                        #[trigger] seq_contains_coord(s, c) implies (exists|j: int|
                            0 <= j < i + 1 && pre0[j].coord.key() == c && within(c, fk, 3)) by {
                        let jj = choose|jj: int| 0 <= jj < s.len() && s[jj].coord.key() == c;
                        if jj < prev.len() {
                            assert(seq_contains_coord(prev, c));
                        } else {
                            assert(pre0[i as int].coord.key() == c && within(c, fk, 3));
                        }
                    }
                    assert forall|c: (int, int, int)|
                        (exists|j: int|
                            0 <= j < i + 1 && pre0[j].coord.key() == c && within(
                                c,
                                fk,
                                3,
                            )) implies #[trigger] seq_contains_coord(s, c) by {
                        let j = choose|j: int|
                            0 <= j < i + 1 && pre0[j].coord.key() == c && within(c, fk, 3);
                        if j < i {
                            assert(seq_contains_coord(prev, c));
                            let jj = choose|jj: int| 0 <= jj < prev.len() && prev[jj].coord.key() == c;
                            assert(s[jj].coord.key() == c);
                        } else {
                            assert(s[s.len() - 1].coord.key() == c);
                        }
                    }
                }
            } else {
                proof {
                    assert forall|c: (int, int, int)|
                        (exists|j: int|
                            0 <= j < i + 1 && pre0[j].coord.key() == c && within(
                                c,
                                fk,
                                3,
                            )) implies #[trigger] seq_contains_coord(kept@, c) by {
                        let j = choose|j: int|
                            0 <= j < i + 1 && pre0[j].coord.key() == c && within(c, fk, 3);
                        assert(j < i);
                    }
                }
            }
            i = i + 1;
        }
        self.chunks = kept;
        self.focal = f;
        proof {
            assert(old(self).chunks@ == pre0);
            assert forall|j: int| 0 <= j < self.chunks@.len() implies within(
                (#[trigger] self.chunks@[j]).coord.key(),
                fk,
                3,
            ) by {
                lemma_index_of_unique(self.chunks@, self.chunks@[j].coord.key(), j);
                assert(seq_contains_coord(self.chunks@, self.chunks@[j].coord.key()));
            }
            assert forall|c: (int, int, int)|
                #[trigger] self.contains_coord(c) <==> (old(self).contains_coord(c) && within(
                    c,
                    fk,
                    3,
                )) by {
                if self.contains_coord(c) {
                    let j = choose|j: int|
                        0 <= j < n && pre0[j].coord.key() == c && within(c, fk, 3);
                    assert(pre0[j].coord.key() == c);
                }
                if old(self).contains_coord(c) && within(c, fk, 3) {
                    let j = choose|j: int| 0 <= j < pre0.len() && pre0[j].coord.key() == c;
                    assert(0 <= j < n && pre0[j].coord.key() == c && within(c, fk, 3));
                }
            }
            assert forall|c: (int, int, int)|
                self.contains_coord(c) implies #[trigger] self.chunk_at(c) == old(self).chunk_at(c)
                by {
                let j = seq_index_of(self.chunks@, c);
                assert(self.chunks@[j].coord.key() == c);
            }
        }
        self.fill_active();
    }
}

/// Bounded working set: in a well-formed world, the set of present (non-
/// destroyed) coordinates always lies between the active cube and the
/// active-plus-margin cube around the current focal point — whatever
/// sequence of focal moves produced it.
pub proof fn lemma_bounded_working_set(w: World, c: (int, int, int))
    requires
        w.wf(),
    ensures
        w.contains_coord(c) ==> within(c, w.focal.key(), 3),
        within(c, w.focal.key(), 2) ==> w.contains_coord(c),
{
    if w.contains_coord(c) {
        let i = seq_index_of(w.chunks@, c);
        assert(w.chunks@[i].coord.key() == c);
    }
}

/// Replacing one entry with another at the same coordinate leaves the
/// registry's key structure untouched.
pub proof fn lemma_update_entry(s1: Seq<Chunk>, s2: Seq<Chunk>, i: int)
    requires
        coords_unique(s1),
        0 <= i < s1.len(),
        s2 == s1.update(i, s2[i]),
        s2[i].coord.key() == s1[i].coord.key(),
    ensures
        coords_unique(s2),
        forall|c: (int, int, int)|
            #[trigger] seq_contains_coord(s2, c) <==> seq_contains_coord(s1, c),
        forall|c: (int, int, int)|
            seq_contains_coord(s1, c) && c != s1[i].coord.key() ==> s2[seq_index_of(s2, c)] == s1[
                seq_index_of(s1, c)],
        seq_index_of(s1, s1[i].coord.key()) == i,
        seq_index_of(s2, s1[i].coord.key()) == i,
{
    assert(coords_unique(s2)) by {
        assert forall|a: int, b: int| 0 <= a < b < s2.len() implies s2[a].coord.key()
            != s2[b].coord.key() by {
            assert(s1[a].coord.key() != s1[b].coord.key());
        }
    }
    assert forall|c: (int, int, int)|
        #[trigger] seq_contains_coord(s2, c) <==> seq_contains_coord(s1, c) by {
        if seq_contains_coord(s2, c) {
            let j = choose|j: int| 0 <= j < s2.len() && s2[j].coord.key() == c;
            assert(s1[j].coord.key() == c);
        }
        if seq_contains_coord(s1, c) {
            let j = choose|j: int| 0 <= j < s1.len() && s1[j].coord.key() == c;
            assert(s2[j].coord.key() == c);
        }
    }
    lemma_index_of_unique(s1, s1[i].coord.key(), i);
    lemma_index_of_unique(s2, s1[i].coord.key(), i);
    assert forall|c: (int, int, int)|
        seq_contains_coord(s1, c) && c != s1[i].coord.key() implies s2[seq_index_of(s2, c)] == s1[
        seq_index_of(s1, c)] by {
        let j = choose|j: int| 0 <= j < s1.len() && s1[j].coord.key() == c;
        lemma_index_of_unique(s1, c, j);
        assert(s2[j].coord.key() == c);
        lemma_index_of_unique(s2, c, j);
    }
}

/// What a correctly extracted boundary plane toward direction `d` of the
/// chunk at `c` looks like: present and mirroring the neighbor's facing
/// layer exactly when the neighbor chunk is present with terrain, absent
/// otherwise.
pub open spec fn neighbor_plane_ok(
    w: World,
    c: (int, int, int),
    d: int,
    p: Option<BoundaryMask>,
) -> bool {
    let nc = (c.0 + dvec(d).0, c.1 + dvec(d).1, c.2 + dvec(d).2);
    if w.contains_coord(nc) && w.chunk_at(nc).grid is Some {
        &&& p is Some
        &&& p->Some_0.wf()
        &&& forall|u: int, v: int|
            0 <= u < 16 && 0 <= v < 16 ==> p->Some_0.solid_at(u, v) == w.chunk_at(
                nc,
            ).grid->Some_0.solid_at(
                boundary_source_cell(d, u, v).0,
                boundary_source_cell(d, u, v).1,
                boundary_source_cell(d, u, v).2,
            )
    } else {
        p is None
    }
}

impl World {
    /// Marks a requested chunk as picked up by the scheduler: terrain is
    /// being produced for it.
    pub fn mark_generating(&mut self, coord: ChunkCoord) -> (r: bool)
        requires
            old(self).wf(),
        ensures
            final(self).wf(),
            final(self).focal == old(self).focal,
            forall|c: (int, int, int)|
                #[trigger] final(self).contains_coord(c) <==> old(self).contains_coord(c),
            r <==> (old(self).contains_coord(coord.key()) && old(self).chunk_at(
                coord.key(),
            ).state == ChunkState::Requested),
            r ==> final(self).chunk_at(coord.key()) == (Chunk {
                state: ChunkState::Generating,
                ..old(self).chunk_at(coord.key())
            }),
            forall|c: (int, int, int)|
                old(self).contains_coord(c) && c != coord.key()
                    ==> #[trigger] final(self).chunk_at(c) == old(self).chunk_at(c),
            !r ==> *final(self) == *old(self),
    {
        match self.find_index(coord) {
            Some(i) => {
                proof {
                    lemma_index_of_unique(self.chunks@, coord.key(), i as int);
                }
                let waiting = matches!(self.chunks[i].state, ChunkState::Requested);
                if waiting {
                    let ghost pre = self.chunks@;
                    let ch = &mut self.chunks[i];
                    ch.state = ChunkState::Generating;
                    proof {
                        lemma_update_entry(pre, self.chunks@, i as int);
                        assert forall|j: int| 0 <= j < self.chunks@.len() implies (
                        #[trigger] self.chunks@[j]).wf() && within(
                            self.chunks@[j].coord.key(),
                            self.focal.key(),
                            3,
                        ) by {
                            if j != i {
                                assert(self.chunks@[j] == pre[j]);
                            }
                        }
                        assert forall|c: (int, int, int)|
                            within(c, self.focal.key(), 2) implies #[trigger] self.contains_coord(
                            c,
                        ) by {
                            assert(old(self).contains_coord(c));
                        }
                    }
                    true
                } else {
                    false
                }
            },
            None => false,
        }
    }

    /// The chunk registered at `coord`, if any.
    pub fn get_chunk(&self, coord: ChunkCoord) -> (r: Option<&Chunk>)
        requires
            self.wf(),
        ensures
            match r {
                Some(ch) => self.contains_coord(coord.key()) && *ch == self.chunk_at(coord.key()),
                None => !self.contains_coord(coord.key()),
            },
    {
        match self.find_index(coord) {
            Some(i) => {
                proof {
                    lemma_index_of_unique(self.chunks@, coord.key(), i as int);
                }
                Some(&self.chunks[i])
            },
            None => None,
        }
    }

    /// Hands a worker-produced block grid back to the registry.  The grid
    /// is installed only if the coordinate is still present and still
    /// waiting on terrain; a result for an evicted or already-served
    /// coordinate is dropped (completions may arrive in any order).
    pub fn integrate_generated(&mut self, coord: ChunkCoord, grid: BlockGrid) -> (r: bool)
        requires
            old(self).wf(),
            grid.wf(),
        ensures
            final(self).wf(),
            final(self).focal == old(self).focal,
            forall|c: (int, int, int)|
                #[trigger] final(self).contains_coord(c) <==> old(self).contains_coord(c),
            r <==> (old(self).contains_coord(coord.key()) && (old(self).chunk_at(
                coord.key(),
            ).state == ChunkState::Requested || old(self).chunk_at(coord.key()).state
                == ChunkState::Generating)),
            r ==> ({
                let ch = final(self).chunk_at(coord.key());
                &&& ch.coord == old(self).chunk_at(coord.key()).coord
                &&& ch.state == ChunkState::Generated
                &&& ch.grid == Some(grid)
                &&& ch.mesh is None
            }),
            forall|c: (int, int, int)|
                old(self).contains_coord(c) && c != coord.key()
                    ==> #[trigger] final(self).chunk_at(c) == old(self).chunk_at(c),
            !r ==> *final(self) == *old(self),
    {
        match self.find_index(coord) {
            Some(i) => {
                proof {
                    lemma_index_of_unique(self.chunks@, coord.key(), i as int);
                }
                let waiting = {
                    let ch = &self.chunks[i];
                    matches!(ch.state, ChunkState::Requested | ChunkState::Generating)
                };
                if waiting {
                    let ghost pre = self.chunks@;
                    let ch = &mut self.chunks[i];
                    ch.complete_generation(grid);
                    proof {
                        lemma_update_entry(pre, self.chunks@, i as int);
                        assert forall|j: int| 0 <= j < self.chunks@.len() implies (
                        #[trigger] self.chunks@[j]).wf() && within(
                            self.chunks@[j].coord.key(),
                            self.focal.key(),
                            3,
                        ) by {
                            if j != i {
                                assert(self.chunks@[j] == pre[j]);
                            }
                        }
                        assert forall|c: (int, int, int)|
                            within(c, self.focal.key(), 2) implies #[trigger] self.contains_coord(
                            c,
                        ) by {
                            assert(old(self).contains_coord(c));
                        }
                    }
                    true
                } else {
                    false
                }
            },
            None => false,
        }
    }

    /// Extracts the boundary plane the chunk at `coord` sees toward `dir`.
    fn plane_for(&self, coord: ChunkCoord, dir: Direction) -> (r: Option<BoundaryMask>)
        requires
            self.wf(),
            self.contains_coord(coord.key()),
        ensures
            neighbor_plane_ok(*self, coord.key(), dir_index(dir), r),
    {
        proof {
            lemma_bounded_working_set(*self, coord.key());
            crate::direction::lemma_dir_index_roundtrip(dir);
        }
        let (vx, vy, vz) = dir.vector();
        let nc = ChunkCoord::new(coord.x + vx, coord.y + vy, coord.z + vz);
        match self.find_index(nc) {
            None => None,
            Some(i) => {
                proof {
                    lemma_index_of_unique(self.chunks@, nc.key(), i as int);
                }
                match &self.chunks[i].grid {
                    None => None,
                    Some(g) => Some(boundary_mask_of(g, dir)),
                }
            },
        }
    }

    /// Assembles what the mesher may know about the six chunks adjacent to
    /// `coord`: the boundary layer of each neighbor that is present with
    /// terrain, nothing for the others.
    pub fn neighborhood(&self, coord: ChunkCoord) -> (nb: Neighborhood)
        requires
            self.wf(),
            self.contains_coord(coord.key()),
        ensures
            nb.wf(),
            forall|d: int|
                0 <= d < 6 ==> neighbor_plane_ok(*self, coord.key(), d, #[trigger] nb.plane(d)),
    {
        let nb = Neighborhood {
            front: self.plane_for(coord, Direction::Front),
            back: self.plane_for(coord, Direction::Back),
            top: self.plane_for(coord, Direction::Top),
            bottom: self.plane_for(coord, Direction::Bottom),
            right: self.plane_for(coord, Direction::Right),
            left: self.plane_for(coord, Direction::Left),
        };
        proof {
            assert(nb.plane(0) == nb.front);
            assert(nb.plane(1) == nb.back);
            assert(nb.plane(2) == nb.top);
            assert(nb.plane(3) == nb.bottom);
            assert(nb.plane(4) == nb.right);
            assert(nb.plane(5) == nb.left);
            assert forall|d: int| 0 <= d < 6 implies neighbor_plane_ok(
                *self,
                coord.key(),
                d,
                #[trigger] nb.plane(d),
            ) by {
            }
            assert forall|d: int|
                0 <= d < 6 && (#[trigger] nb.plane(d)) is Some implies nb.plane(
                d,
            )->Some_0.wf() by {
            }
        }
        nb
    }

    /// Builds the surface of the chunk at `coord` from its terrain and the
    /// current neighborhood, and activates it.  Returns the neighborhood
    /// the mesh was extracted against; a coordinate that is absent or not
    /// yet `Generated` is left untouched.
    pub fn mesh_chunk(&mut self, coord: ChunkCoord) -> (r: Option<Neighborhood>)
        requires
            old(self).wf(),
        ensures
            final(self).wf(),
            final(self).focal == old(self).focal,
            forall|c: (int, int, int)|
                #[trigger] final(self).contains_coord(c) <==> old(self).contains_coord(c),
            r is Some <==> (old(self).contains_coord(coord.key()) && old(self).chunk_at(
                coord.key(),
            ).state == ChunkState::Generated),
            r is Some ==> ({
                let nb = r->Some_0;
                let pre = old(self).chunk_at(coord.key());
                let post = final(self).chunk_at(coord.key());
                &&& nb.wf()
                &&& forall|d: int|
                    0 <= d < 6 ==> neighbor_plane_ok(
                        *old(self),
                        coord.key(),
                        d,
                        #[trigger] nb.plane(d),
                    )
                &&& post.coord == pre.coord
                &&& post.grid == pre.grid
                &&& post.state == ChunkState::Active
                &&& !post.dirty
                &&& post.mesh is Some
                &&& post.mesh->Some_0.encodes(culled_faces(pre.grid->Some_0, nb))
            }),
            forall|c: (int, int, int)|
                old(self).contains_coord(c) && c != coord.key()
                    ==> #[trigger] final(self).chunk_at(c) == old(self).chunk_at(c),
            r is None ==> *final(self) == *old(self),
    {
        match self.find_index(coord) {
            Some(i) => {
                proof {
                    lemma_index_of_unique(self.chunks@, coord.key(), i as int);
                }
                let ready = matches!(self.chunks[i].state, ChunkState::Generated);
                if ready {
                    let nb = self.neighborhood(coord);
                    let m = match &self.chunks[i].grid {
                        Some(g) => build_mesh(g, &nb),
                        None => {
                            proof {
                                assert(false);
                            }
                            MeshData { vertices: Vec::new(), triangles: Vec::new() }
                        },
                    };
                    let ghost pre = self.chunks@;
                    let ch = &mut self.chunks[i];
                    ch.mesh = Some(m);
                    ch.state = ChunkState::Active;
                    ch.dirty = false;
                    proof {
                        lemma_update_entry(pre, self.chunks@, i as int);
                        assert forall|j: int| 0 <= j < self.chunks@.len() implies (
                        #[trigger] self.chunks@[j]).wf() && within(
                            self.chunks@[j].coord.key(),
                            self.focal.key(),
                            3,
                        ) by {
                            if j != i {
                                assert(self.chunks@[j] == pre[j]);
                            }
                        }
                        assert forall|c: (int, int, int)|
                            within(c, self.focal.key(), 2) implies #[trigger] self.contains_coord(
                            c,
                        ) by {
                            assert(old(self).contains_coord(c));
                        }
                    }
                    Some(nb)
                } else {
                    None
                }
            },
            None => None,
        }
    }

    /// Replaces one block of a loaded, generated chunk: the chunk's surface
    /// is dropped and it is marked dirty and eligible for re-meshing, so no
    /// stale geometry survives the mutation.  Terrain of other chunks and
    /// the registry itself are untouched.
    pub fn set_block(
        &mut self,
        coord: ChunkCoord,
        x: usize,
        y: usize,
        z: usize,
        kind: BlockKind,
    ) -> (r: bool)
        requires
            old(self).wf(),
            x < 16,
            y < 16,
            z < 16,
        ensures
            final(self).wf(),
            final(self).focal == old(self).focal,
            forall|c: (int, int, int)|
                #[trigger] final(self).contains_coord(c) <==> old(self).contains_coord(c),
            r <==> (old(self).contains_coord(coord.key()) && old(self).chunk_at(
                coord.key(),
            ).grid is Some),
            r ==> ({
                let pre = old(self).chunk_at(coord.key());
                let post = final(self).chunk_at(coord.key());
                &&& post.coord == pre.coord
                &&& post.state == ChunkState::Generated
                &&& post.mesh is None
                &&& post.dirty
                &&& post.grid is Some
                &&& post.grid->Some_0.block_at(x as int, y as int, z as int)
                    == (crate::block::Block { kind })
                &&& forall|xx: int, yy: int, zz: int|
                    in_chunk(xx, yy, zz) && (xx, yy, zz) != (x as int, y as int, z as int)
                        ==> post.grid->Some_0.block_at(xx, yy, zz) == pre.grid->Some_0.block_at(
                            xx,
                            yy,
                            zz,
                        )
            }),
            forall|c: (int, int, int)|
                old(self).contains_coord(c) && c != coord.key()
                    ==> #[trigger] final(self).chunk_at(c) == old(self).chunk_at(c),
            !r ==> *final(self) == *old(self),
    {
        match self.find_index(coord) {
            Some(i) => {
                proof {
                    lemma_index_of_unique(self.chunks@, coord.key(), i as int);
                }
                let has_grid = self.chunks[i].grid.is_some();
                if has_grid {
                    let ghost pre = self.chunks@;
                    let ch = &mut self.chunks[i];
                    ch.mutate_block(x, y, z, kind);
                    proof {
                        lemma_update_entry(pre, self.chunks@, i as int);
                        assert forall|j: int| 0 <= j < self.chunks@.len() implies (
                        #[trigger] self.chunks@[j]).wf() && within(
                            self.chunks@[j].coord.key(),
                            self.focal.key(),
                            3,
                        ) by {
                            if j != i {
                                assert(self.chunks@[j] == pre[j]);
                            }
                        }
                        assert forall|c: (int, int, int)|
                            within(c, self.focal.key(), 2) implies #[trigger] self.contains_coord(
                            c,
                        ) by {
                            assert(old(self).contains_coord(c));
                        }
                    }
                    true
                } else {
                    false
                }
            },
            None => false,
        }
    }
}

/// Face-culling correctness and boundary completeness across a chunk
/// boundary: a face of a boundary block, looked up through a neighborhood
/// that was correctly extracted from the world, is emitted exactly when the
/// facing cell of the (present, generated) neighbor chunk is not solid.
/// In particular, when two adjacent blocks of two different chunks are both
/// solid, neither chunk emits the shared face.
pub proof fn lemma_cross_chunk_culling(
    w: World,
    c1: (int, int, int),
    nb: Neighborhood,
    x: int,
    y: int,
    z: int,
    d: int,
)
    requires
        w.wf(),
        w.contains_coord(c1),
        w.chunk_at(c1).grid is Some,
        forall|dd: int| 0 <= dd < 6 ==> neighbor_plane_ok(w, c1, dd, #[trigger] nb.plane(dd)),
        in_chunk(x, y, z),
        0 <= d < 6,
        !in_chunk(x + dvec(d).0, y + dvec(d).1, z + dvec(d).2),
        w.contains_coord((c1.0 + dvec(d).0, c1.1 + dvec(d).1, c1.2 + dvec(d).2)),
        w.chunk_at((c1.0 + dvec(d).0, c1.1 + dvec(d).1, c1.2 + dvec(d).2)).grid is Some,
    ensures
        ({
            let g1 = w.chunk_at(c1).grid->Some_0;
            let g2 = w.chunk_at((c1.0 + dvec(d).0, c1.1 + dvec(d).1, c1.2 + dvec(d).2)).grid->Some_0;
            let cell = boundary_source_cell(d, boundary_uv(d, x, y, z).0, boundary_uv(d, x, y, z).1);
            culled_faces(g1, nb).contains((x, y, z, d)) <==> (g1.solid_at(x, y, z)
                && !g2.solid_at(cell.0, cell.1, cell.2))
        }),
{
    let g1 = w.chunk_at(c1).grid->Some_0;
    let nc = (c1.0 + dvec(d).0, c1.1 + dvec(d).1, c1.2 + dvec(d).2);
    let g2 = w.chunk_at(nc).grid->Some_0;
    let u = boundary_uv(d, x, y, z).0;
    let v = boundary_uv(d, x, y, z).1;
    assert(neighbor_plane_ok(w, c1, d, nb.plane(d)));
    assert(nb.plane(d) is Some);
    assert(nb.plane(d)->Some_0.solid_at(u, v) == g2.solid_at(
        boundary_source_cell(d, u, v).0,
        boundary_source_cell(d, u, v).1,
        boundary_source_cell(d, u, v).2,
    ));
    lemma_culled_faces_membership(g1, nb, x, y, z, d);
}

/// Face-culling correctness across a chunk boundary, both sides at once:
/// for a pair of adjacent solid blocks living in two different chunks, the
/// shared face appears in neither chunk's emitted geometry, each extracted
/// against its own correctly built neighborhood.
pub proof fn lemma_shared_face_in_neither_chunk(
    w: World,
    c1: (int, int, int),
    nb1: Neighborhood,
    nb2: Neighborhood,
    x: int,
    y: int,
    z: int,
    d: int,
)
    requires
        w.wf(),
        w.contains_coord(c1),
        w.chunk_at(c1).grid is Some,
        forall|dd: int| 0 <= dd < 6 ==> neighbor_plane_ok(w, c1, dd, #[trigger] nb1.plane(dd)),
        forall|dd: int|
            0 <= dd < 6 ==> neighbor_plane_ok(
                w,
                (c1.0 + dvec(d).0, c1.1 + dvec(d).1, c1.2 + dvec(d).2),
                dd,
                #[trigger] nb2.plane(dd),
            ),
        in_chunk(x, y, z),
        0 <= d < 6,
        !in_chunk(x + dvec(d).0, y + dvec(d).1, z + dvec(d).2),
        w.contains_coord((c1.0 + dvec(d).0, c1.1 + dvec(d).1, c1.2 + dvec(d).2)),
        w.chunk_at((c1.0 + dvec(d).0, c1.1 + dvec(d).1, c1.2 + dvec(d).2)).grid is Some,
        w.chunk_at(c1).grid->Some_0.solid_at(x, y, z),
        ({
            let cell = boundary_source_cell(d, boundary_uv(d, x, y, z).0, boundary_uv(d, x, y, z).1);
            w.chunk_at((c1.0 + dvec(d).0, c1.1 + dvec(d).1, c1.2 + dvec(d).2)).grid->Some_0.solid_at(
                cell.0,
                cell.1,
                cell.2,
            )
        }),
    ensures
        !culled_faces(w.chunk_at(c1).grid->Some_0, nb1).contains((x, y, z, d)),
        ({
            let cell = boundary_source_cell(d, boundary_uv(d, x, y, z).0, boundary_uv(d, x, y, z).1);
            !culled_faces(
                w.chunk_at((c1.0 + dvec(d).0, c1.1 + dvec(d).1, c1.2 + dvec(d).2)).grid->Some_0,
                nb2,
            ).contains((cell.0, cell.1, cell.2, opp_index(d)))
        }),
{
    let c2 = (c1.0 + dvec(d).0, c1.1 + dvec(d).1, c1.2 + dvec(d).2);
    let u = boundary_uv(d, x, y, z).0;
    let v = boundary_uv(d, x, y, z).1;
    let cell = boundary_source_cell(d, u, v);
    let od = opp_index(d);
    lemma_cross_chunk_culling(w, c1, nb1, x, y, z, d);
    lemma_opposite_vec(d);
    // the boundary premise pins the block to the facing layer, so the
    // neighbor's facing cell projects straight back onto it
    if d == 0 {
        assert(z == 15);
        assert(cell == (x, y, 0int));
        assert(boundary_source_cell(od, boundary_uv(od, cell.0, cell.1, cell.2).0, boundary_uv(od, cell.0, cell.1, cell.2).1) == (x, y, z));
    } else if d == 1 {
        assert(z == 0);
        assert(cell == (x, y, 15int));
        assert(boundary_source_cell(od, boundary_uv(od, cell.0, cell.1, cell.2).0, boundary_uv(od, cell.0, cell.1, cell.2).1) == (x, y, z));
    } else if d == 2 {
        assert(y == 15);
        assert(cell == (x, 0int, z));
        assert(boundary_source_cell(od, boundary_uv(od, cell.0, cell.1, cell.2).0, boundary_uv(od, cell.0, cell.1, cell.2).1) == (x, y, z));
    } else if d == 3 {
        assert(y == 0);
        assert(cell == (x, 15int, z));
        assert(boundary_source_cell(od, boundary_uv(od, cell.0, cell.1, cell.2).0, boundary_uv(od, cell.0, cell.1, cell.2).1) == (x, y, z));
    } else if d == 4 {
        assert(x == 15);
        assert(cell == (0int, y, z));
        assert(boundary_source_cell(od, boundary_uv(od, cell.0, cell.1, cell.2).0, boundary_uv(od, cell.0, cell.1, cell.2).1) == (x, y, z));
    } else {
        assert(x == 0);
        assert(cell == (15int, y, z));
        assert(boundary_source_cell(od, boundary_uv(od, cell.0, cell.1, cell.2).0, boundary_uv(od, cell.0, cell.1, cell.2).1) == (x, y, z));
    }
    assert(in_chunk(cell.0, cell.1, cell.2));
    assert(!in_chunk(cell.0 + dvec(od).0, cell.1 + dvec(od).1, cell.2 + dvec(od).2));
    assert((c2.0 + dvec(od).0, c2.1 + dvec(od).1, c2.2 + dvec(od).2) == c1);
    lemma_cross_chunk_culling(w, c2, nb2, cell.0, cell.1, cell.2, od);
}

} // verus!
