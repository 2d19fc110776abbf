//! Bookkeeping for background chunk generation.  The scheduler itself is a
//! plain state machine: a FIFO of requested coordinates, the set handed out
//! to workers, and the finished results waiting to be drained.  A host
//! application moves work between the queues from whatever threads it owns;
//! every transition's effect is pinned down here, so the interactive side
//! can rely on: requests are idempotent, each coordinate is tracked at most
//! once, and no result is ever delivered after shutdown begins.

use vstd::prelude::*;

use crate::chunk::BlockGrid;
use crate::chunk::ChunkCoord;

verus! {

/// A finished generation job: the coordinate and its produced terrain.
pub struct FinishedChunk {
    pub coord: ChunkCoord,
    pub grid: BlockGrid,
}

/// Whether some coordinate entry of `s` has key `c`.
pub open spec fn coords_has(s: Seq<ChunkCoord>, c: (int, int, int)) -> bool {
    exists|i: int| 0 <= i < s.len() && s[i].key() == c
}

/// Whether some finished entry of `s` is for key `c`.
pub open spec fn finished_has(s: Seq<FinishedChunk>, c: (int, int, int)) -> bool {
    exists|i: int| 0 <= i < s.len() && s[i].coord.key() == c
}

/// The generation scheduler's queues.
pub struct GenerationScheduler {
    pub pending: Vec<ChunkCoord>,
    pub in_flight: Vec<ChunkCoord>,
    pub completed: Vec<FinishedChunk>,
    pub accepting: bool,
}

impl GenerationScheduler {
    /// Whether coordinate `c` is waiting to be picked up.
    pub open spec fn pending_has(self, c: (int, int, int)) -> bool {
        coords_has(self.pending@, c)
    }

    /// Whether coordinate `c` has been handed to a worker.
    pub open spec fn in_flight_has(self, c: (int, int, int)) -> bool {
        coords_has(self.in_flight@, c)
    }

    /// Whether a result for coordinate `c` awaits draining.
    pub open spec fn completed_has(self, c: (int, int, int)) -> bool {
        finished_has(self.completed@, c)
    }

    /// Whether the scheduler knows coordinate `c` in any stage.
    pub open spec fn tracks(self, c: (int, int, int)) -> bool {
        self.pending_has(c) || self.in_flight_has(c) || self.completed_has(c)
    }

    /// Each coordinate is tracked at most once, in one stage, and every
    /// finished grid is a full chunk of blocks.
    pub open spec fn wf(self) -> bool {
        &&& forall|i: int, j: int|
            0 <= i < j < self.pending@.len() ==> self.pending@[i].key() != self.pending@[j].key()
        &&& forall|i: int, j: int|
            0 <= i < j < self.in_flight@.len() ==> self.in_flight@[i].key()
                != self.in_flight@[j].key()
        &&& forall|i: int, j: int|
            0 <= i < j < self.completed@.len() ==> self.completed@[i].coord.key()
                != self.completed@[j].coord.key()
        &&& forall|c: (int, int, int)|
            !(#[trigger] coords_has(self.pending@, c) && coords_has(self.in_flight@, c))
        &&& forall|c: (int, int, int)|
            !(#[trigger] coords_has(self.pending@, c) && finished_has(self.completed@, c))
        &&& forall|c: (int, int, int)|
            !(#[trigger] coords_has(self.in_flight@, c) && finished_has(self.completed@, c))
        &&& forall|i: int|
            0 <= i < self.completed@.len() ==> (#[trigger] self.completed@[i]).grid.wf()
    }

    /// A fresh scheduler: empty, accepting work.
    pub fn new() -> (r: GenerationScheduler)
        ensures
            r.wf(),
            r.accepting,
            forall|c: (int, int, int)| !(#[trigger] r.tracks(c)),
            r.pending@.len() == 0,
            r.in_flight@.len() == 0,
            r.completed@.len() == 0,
    {
        GenerationScheduler {
            pending: Vec::new(),
            in_flight: Vec::new(),
            completed: Vec::new(),
            accepting: true,
        }
    }

    /// Whether a request for `c` would be queued right now.
    pub fn wants(&self, c: ChunkCoord) -> (r: bool)
        ensures
            r == (self.accepting && !self.tracks(c.key())),
    {
        if !self.accepting {
            return false;
        }
        let mut i: usize = 0;
        let n = self.pending.len();
        while i < n
            invariant
                n == self.pending@.len(),
                i <= n,
                forall|j: int| 0 <= j < i ==> self.pending@[j].key() != c.key(),
            decreases n - i,
        {
            let e = &self.pending[i];
            if e.x == c.x && e.y == c.y && e.z == c.z {
                assert(self.pending@[i as int].key() == c.key());
                return false;
            }
            i = i + 1;
        }
        let mut i2: usize = 0;
        let n2 = self.in_flight.len();
        while i2 < n2
            invariant
                n2 == self.in_flight@.len(),
                i2 <= n2,
                forall|j: int| 0 <= j < i2 ==> self.in_flight@[j].key() != c.key(),
            decreases n2 - i2,
        {
            let e = &self.in_flight[i2];
            if e.x == c.x && e.y == c.y && e.z == c.z {
                assert(self.in_flight@[i2 as int].key() == c.key());
                return false;
            }
            i2 = i2 + 1;
        }
        let mut i3: usize = 0;
        let n3 = self.completed.len();
        while i3 < n3
            invariant
                n3 == self.completed@.len(),
                i3 <= n3,
                forall|j: int| 0 <= j < i3 ==> self.completed@[j].coord.key() != c.key(),
            decreases n3 - i3,
        {
            let e = &self.completed[i3].coord;
            if e.x == c.x && e.y == c.y && e.z == c.z {
                assert(self.completed@[i3 as int].coord.key() == c.key());
                return false;
            }
            i3 = i3 + 1;
        }
        true
    }

    /// Queues a coordinate for generation.  Idempotent: re-requesting a
    /// coordinate that is already pending, in flight or finished changes
    /// nothing, and a scheduler that has shut down accepts nothing.
    pub fn request(&mut self, c: ChunkCoord)
        requires
            old(self).wf(),
        ensures
            final(self).wf(),
            final(self).accepting == old(self).accepting,
            !(old(self).accepting && !old(self).tracks(c.key())) ==> *final(self) == *old(self),
            (old(self).accepting && !old(self).tracks(c.key())) ==> ({
                &&& final(self).pending@ == old(self).pending@.push(c)
                &&& final(self).in_flight@ == old(self).in_flight@
                &&& final(self).completed@ == old(self).completed@
            }),
            forall|c2: (int, int, int)|
                #[trigger] final(self).tracks(c2) <==> (old(self).tracks(c2) || (old(self).accepting
                    && c2 == c.key())),
    {
        let q = self.wants(c);
        if q {
            self.pending.push(c);
            proof {
                let p = old(self).pending@;
                let s = self.pending@;
                assert forall|c2: (int, int, int)|
                    #[trigger] coords_has(s, c2) <==> (coords_has(p, c2) || c2 == c.key()) by {
                    if coords_has(s, c2) {
                        let i = choose|i: int| 0 <= i < s.len() && s[i].key() == c2;
                        if i < p.len() {
                            assert(p[i].key() == c2);
                        }
                    }
                    if coords_has(p, c2) {
                        let i = choose|i: int| 0 <= i < p.len() && p[i].key() == c2;
                        assert(s[i].key() == c2);
                    }
                    if c2 == c.key() {
                        assert(s[p.len() as int].key() == c2);
                    }
                }
                assert forall|i: int, j: int| 0 <= i < j < s.len() implies s[i].key()
                    != s[j].key() by {
                    if j < p.len() {
                        assert(p[i].key() != p[j].key());
                    } else {
                        assert(s[j].key() == c.key());
                        if s[i].key() == c.key() {
                            assert(p[i].key() == c.key());
                            assert(coords_has(p, c.key()));
                        }
                    }
                }
                assert forall|c2: (int, int, int)| !(#[trigger] coords_has(self.pending@, c2)
                    && coords_has(self.in_flight@, c2)) by {
                    if coords_has(self.in_flight@, c2) {
                        assert(!coords_has(p, c2));
                        assert(c2 != c.key());
                    }
                }
                assert forall|c2: (int, int, int)| !(#[trigger] coords_has(self.pending@, c2)
                    && finished_has(self.completed@, c2)) by {
                    if finished_has(self.completed@, c2) {
                        assert(!coords_has(p, c2));
                        assert(c2 != c.key());
                    }
                }
                assert(self.wf());
                assert forall|c2: (int, int, int)|
                    #[trigger] self.tracks(c2) <==> (old(self).tracks(c2) || (old(self).accepting
                        && c2 == c.key())) by {
                }
            }
        } else {
            proof {
                if old(self).accepting && !old(self).tracks(c.key()) {
                    assert(false);
                }
            }
        }
    }

    /// Hands the oldest pending coordinate to a worker, if any: it moves
    /// from pending to in-flight.
    pub fn next_job(&mut self) -> (r: Option<ChunkCoord>)
        requires
            old(self).wf(),
        ensures
            final(self).wf(),
            final(self).accepting == old(self).accepting,
            r is Some <==> old(self).pending@.len() > 0,
            r is None ==> *final(self) == *old(self),
            r is Some ==> ({
                &&& r->Some_0 == old(self).pending@[0]
                &&& final(self).pending@ == old(self).pending@.subrange(
                    1,
                    old(self).pending@.len() as int,
                )
                &&& final(self).in_flight@ == old(self).in_flight@.push(r->Some_0)
                &&& final(self).completed@ == old(self).completed@
            }),
            forall|c2: (int, int, int)| #[trigger] final(self).tracks(c2) <==> old(self).tracks(c2),
    {
        if self.pending.len() == 0 {
            return None;
        }
        let c = self.pending.remove(0);
        self.in_flight.push(c);
        proof {
            let p0 = old(self).pending@;
            let f0 = old(self).in_flight@;
            assert(self.pending@ =~= p0.subrange(1, p0.len() as int));
            assert forall|c2: (int, int, int)|
                #[trigger] coords_has(self.pending@, c2) implies coords_has(p0, c2) by {
                let i = choose|i: int| 0 <= i < self.pending@.len() && self.pending@[i].key() == c2;
                assert(p0[i + 1].key() == c2);
            }
            assert forall|c2: (int, int, int)|
                #[trigger] coords_has(self.in_flight@, c2) <==> (coords_has(f0, c2) || c2
                    == c.key()) by {
                if coords_has(self.in_flight@, c2) {
                    let i = choose|i: int|
                        0 <= i < self.in_flight@.len() && self.in_flight@[i].key() == c2;
                    if i < f0.len() {
                        assert(f0[i].key() == c2);
                    }
                }
                if coords_has(f0, c2) {
                    let i = choose|i: int| 0 <= i < f0.len() && f0[i].key() == c2;
                    assert(self.in_flight@[i].key() == c2);
                }
                if c2 == c.key() {
                    assert(self.in_flight@[f0.len() as int].key() == c2);
                }
            }
            assert(coords_has(p0, c.key())) by {
                assert(p0[0].key() == c.key());
            }
            assert forall|i: int, j: int|
                0 <= i < j < self.pending@.len() implies self.pending@[i].key()
                != self.pending@[j].key() by {
                assert(p0[i + 1].key() != p0[j + 1].key());
            }
            assert forall|c2: (int, int, int)|
                #[trigger] self.tracks(c2) <==> old(self).tracks(c2) by {
                if coords_has(p0, c2) && c2 != c.key() {
                    let i = choose|i: int| 0 <= i < p0.len() && p0[i].key() == c2;
                    assert(i != 0);
                    assert(self.pending@[i - 1].key() == c2);
                    assert(coords_has(self.pending@, c2));
                }
            }
            assert forall|c2: (int, int, int)| !(#[trigger] coords_has(self.pending@, c2)
                && coords_has(self.in_flight@, c2)) by {
                if coords_has(self.pending@, c2) {
                    assert(coords_has(p0, c2));
                    if c2 == c.key() {
                        let i = choose|i: int|
                            0 <= i < self.pending@.len() && self.pending@[i].key() == c2;
                        assert(p0[i + 1].key() == c2);
                        assert(p0[0].key() == c2);
                    }
                    assert(!coords_has(f0, c2));
                }
            }
            assert forall|c2: (int, int, int)| !(#[trigger] coords_has(self.pending@, c2)
                && finished_has(self.completed@, c2)) by {
                if coords_has(self.pending@, c2) {
                    assert(coords_has(p0, c2));
                }
            }
            assert forall|c2: (int, int, int)| !(#[trigger] coords_has(self.in_flight@, c2)
                && finished_has(self.completed@, c2)) by {
                if coords_has(self.in_flight@, c2) && c2 == c.key() {
                    assert(coords_has(p0, c2));
                }
            }
            assert forall|i2: int, j2: int|
                0 <= i2 < j2 < self.in_flight@.len() implies self.in_flight@[i2].key()
                != self.in_flight@[j2].key() by {
                if j2 < f0.len() {
                    assert(f0[i2].key() != f0[j2].key());
                } else {
                    assert(self.in_flight@[j2].key() == c.key());
                    if self.in_flight@[i2].key() == c.key() {
                        assert(f0[i2].key() == c.key());
                        assert(coords_has(f0, c.key()));
                    }
                }
            }
            assert(self.wf());
        }
        Some(c)
    }

    /// Receives a worker's finished terrain.  The result is kept only when
    /// the scheduler still accepts results and the coordinate is actually
    /// in flight; anything else — a duplicate, a stray result, or any
    /// result after shutdown began — is dropped.
    pub fn complete(&mut self, coord: ChunkCoord, grid: BlockGrid) -> (r: bool)
        requires
            old(self).wf(),
            grid.wf(),
        ensures
            final(self).wf(),
            final(self).accepting == old(self).accepting,
            r <==> (old(self).accepting && old(self).in_flight_has(coord.key())),
            !r ==> *final(self) == *old(self),
            r ==> ({
                &&& final(self).pending@ == old(self).pending@
                &&& final(self).completed@.len() == old(self).completed@.len() + 1
                &&& final(self).completed@.last().coord == coord
                &&& final(self).completed@.last().grid == grid
                &&& final(self).completed_has(coord.key())
                &&& !final(self).in_flight_has(coord.key())
            }),
            forall|c2: (int, int, int)| #[trigger] final(self).tracks(c2) <==> old(self).tracks(c2),
    {
        if !self.accepting {
            return false;
        }
        let n = self.in_flight.len();
        let mut i: usize = 0;
        while i < n
            invariant
                *self == *old(self),
                old(self).wf(),
                grid.wf(),
                self.accepting,
                n == self.in_flight@.len(),
                i <= n,
                forall|j: int| 0 <= j < i ==> self.in_flight@[j].key() != coord.key(),
            decreases n - i,
        {
            let e = &self.in_flight[i];
            if e.x == coord.x && e.y == coord.y && e.z == coord.z {
                proof {
                    assert(self.in_flight@[i as int].key() == coord.key());
                }
                let ghost f0 = self.in_flight@;
                let ghost d0 = self.completed@;
                self.in_flight.remove(i);
                self.completed.push(FinishedChunk { coord, grid });
                proof {
                    f0.remove_ensures(i as int);
                    assert(self.in_flight@ == f0.remove(i as int));
                    assert(self.in_flight@.len() == f0.len() - 1);
                    assert forall|j: int| 0 <= j < self.in_flight@.len() implies #[trigger] self.in_flight@[j] == (if j < i { f0[j] } else { f0[j + 1] }) by {
                        if j < i {
                            assert(f0.remove(i as int)[j] == f0[j]);
                        } else {
                            assert(f0.remove(i as int)[j] == f0[j + 1]);
                        }
                    }
                    assert forall|c2: (int, int, int)|
                        #[trigger] coords_has(self.in_flight@, c2) <==> (coords_has(f0, c2) && c2
                            != coord.key()) by {
                        if coords_has(self.in_flight@, c2) {
                            let j = choose|j: int|
                                0 <= j < self.in_flight@.len() && self.in_flight@[j].key() == c2;
                            if j < i {
                                assert(f0[j].key() == c2);
                                assert(f0[j].key() != f0[i as int].key());
                            } else {
                                assert(f0[j + 1].key() == c2);
                                assert(f0[j + 1].key() != f0[i as int].key());
                            }
                        }
                        if coords_has(f0, c2) && c2 != coord.key() {
                            let j = choose|j: int| 0 <= j < f0.len() && f0[j].key() == c2;
                            assert(j != i);
                            if j < i {
                                assert(self.in_flight@[j].key() == c2);
                            } else {
                                assert(self.in_flight@[j - 1].key() == c2);
                            }
                        }
                    }
                    assert forall|j1: int, j2: int|
                        0 <= j1 < j2 < self.in_flight@.len() implies self.in_flight@[j1].key()
                        != self.in_flight@[j2].key() by {
                        let a = if j1 < i { j1 } else { j1 + 1 };
                        let b = if j2 < i { j2 } else { j2 + 1 };
                        assert(self.in_flight@[j1] == f0[a]);
                        assert(self.in_flight@[j2] == f0[b]);
                        assert(f0[a].key() != f0[b].key());
                    }
                    assert forall|c2: (int, int, int)|
                        #[trigger] finished_has(self.completed@, c2) <==> (finished_has(d0, c2)
                            || c2 == coord.key()) by {
                        if finished_has(self.completed@, c2) {
                            let j = choose|j: int|
                                0 <= j < self.completed@.len() && self.completed@[j].coord.key()
                                    == c2;
                            if j < d0.len() {
                                assert(d0[j].coord.key() == c2);
                            }
                        }
                        if finished_has(d0, c2) {
                            let j = choose|j: int| 0 <= j < d0.len() && d0[j].coord.key() == c2;
                            assert(self.completed@[j].coord.key() == c2);
                        }
                        if c2 == coord.key() {
                            assert(self.completed@[d0.len() as int].coord.key() == c2);
                        }
                    }
                    assert(self.completed@.last().coord == coord);
                    assert forall|c2: (int, int, int)| !(#[trigger] coords_has(self.pending@, c2)
                        && coords_has(self.in_flight@, c2)) by {
                        if coords_has(self.in_flight@, c2) {
                            assert(coords_has(f0, c2));
                        }
                    }
                    assert forall|c2: (int, int, int)| !(#[trigger] coords_has(self.pending@, c2)
                        && finished_has(self.completed@, c2)) by {
                        if coords_has(self.pending@, c2) {
                            assert(!finished_has(d0, c2));
                            assert(!coords_has(f0, c2));
                        }
                    }
                    assert forall|c2: (int, int, int)| !(#[trigger] coords_has(self.in_flight@, c2)
                        && finished_has(self.completed@, c2)) by {
                        if coords_has(self.in_flight@, c2) {
                            assert(coords_has(f0, c2) && c2 != coord.key());
                            assert(!finished_has(d0, c2));
                        }
                    }
                    assert forall|j1: int, j2: int|
                        0 <= j1 < j2 < self.completed@.len() implies self.completed@[j1].coord.key()
                        != self.completed@[j2].coord.key() by {
                        if j2 < d0.len() {
                            assert(d0[j1].coord.key() != d0[j2].coord.key());
                        } else {
                            assert(self.completed@[j2].coord.key() == coord.key());
                            if self.completed@[j1].coord.key() == coord.key() {
                                assert(d0[j1].coord.key() == coord.key());
                                assert(finished_has(d0, coord.key()));
                                assert(coords_has(f0, coord.key()));
                            }
                        }
                    }
                    assert forall|j: int|
                        0 <= j < self.completed@.len() implies (#[trigger] self.completed@[j]).grid.wf()
                        by {
                        if j < d0.len() {
                            assert(d0[j].grid.wf());
                        }
                    }
                    assert(self.wf());
                    assert forall|c2: (int, int, int)|
                        #[trigger] self.tracks(c2) <==> old(self).tracks(c2) by {
                    }
                }
                return true;
            }
            i = i + 1;
        }
        return false;
    }

    /// Drains every finished chunk, oldest first.  Called once per frame by
    /// the integration step; after the call nothing is left to drain.
    pub fn poll_completed(&mut self) -> (r: Vec<FinishedChunk>)
        requires
            old(self).wf(),
        ensures
            final(self).wf(),
            final(self).accepting == old(self).accepting,
            r@ == old(self).completed@,
            final(self).completed@.len() == 0,
            final(self).pending@ == old(self).pending@,
            final(self).in_flight@ == old(self).in_flight@,
            forall|i: int| 0 <= i < r@.len() ==> (#[trigger] r@[i]).grid.wf(),
    {
        let mut drained: Vec<FinishedChunk> = Vec::new();
        core::mem::swap(&mut self.completed, &mut drained);
        proof {
            assert(self.pending@ == old(self).pending@);
            assert(self.in_flight@ == old(self).in_flight@);
            assert(self.completed@.len() == 0);
            assert forall|c: (int, int, int)| !(#[trigger] coords_has(self.pending@, c)
                && finished_has(self.completed@, c)) by {
                assert(!finished_has(self.completed@, c));
            }
            assert forall|c: (int, int, int)| !(#[trigger] coords_has(self.in_flight@, c)
                && finished_has(self.completed@, c)) by {
                assert(!finished_has(self.completed@, c));
            }
            assert forall|c: (int, int, int)| !(#[trigger] coords_has(self.pending@, c)
                && coords_has(self.in_flight@, c)) by {
                assert(!(coords_has(old(self).pending@, c) && coords_has(old(self).in_flight@, c)));
            }
            assert(self.wf());
        }
        drained
    }

    /// Stops the scheduler: pending work is cancelled, no new request is
    /// accepted, and any result a worker still delivers will be dropped.
    /// In-flight coordinates remain listed so the host can join its
    /// workers.
    pub fn shutdown(&mut self)
        requires
            old(self).wf(),
        ensures
            final(self).wf(),
            !final(self).accepting,
            final(self).pending@.len() == 0,
            final(self).completed@.len() == 0,
            final(self).in_flight@ == old(self).in_flight@,
    {
        self.accepting = false;
        self.pending.clear();
        self.completed.clear();
    }
}

} // verus!
