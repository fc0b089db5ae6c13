use crate::geometry::{KeyView, UniqueGeometry};
use vstd::prelude::*;

verus! {

/// Sizes of one cached pair of vertex and index buffers, in elements.
#[derive(Debug, Clone, Copy, PartialEq, Eq, Structural)]
pub struct GeometryBuffer {
    pub vertices: usize,
    pub indices: usize,
    pub vertex_capacity: usize,
    pub index_capacity: usize,
}

/// A new buffer pair sized exactly for its first contents.
pub open spec fn fresh_buffer(vertices: usize, indices: usize) -> GeometryBuffer {
    GeometryBuffer { vertices, indices, vertex_capacity: vertices, index_capacity: indices }
}

/// A reused buffer pair after new contents are written: each capacity grows to fit
/// and never shrinks.
pub open spec fn rewritten(b: GeometryBuffer, vertices: usize, indices: usize) -> GeometryBuffer {
    GeometryBuffer {
        vertices,
        indices,
        vertex_capacity: if vertices > b.vertex_capacity {
            vertices
        } else {
            b.vertex_capacity
        },
        index_capacity: if indices > b.index_capacity {
            indices
        } else {
            b.index_capacity
        },
    }
}

/// No buffer of `old` has a smaller capacity in `new`.
pub open spec fn capacities_kept(old: Seq<GeometryBuffer>, new: Seq<GeometryBuffer>) -> bool {
    &&& old.len() <= new.len()
    &&& forall|b: int|
        0 <= b < old.len() ==> old[b].vertex_capacity <= #[trigger] new[b].vertex_capacity
            && old[b].index_capacity <= new[b].index_capacity
}

/// What the GPU side must do after `malloc`: create the pair `buffer` (when `created`),
/// or grow its vertex or index buffer to the new capacity, then write the contents.
#[derive(Debug, Clone, Copy, PartialEq, Eq, Structural)]
pub struct Upload {
    pub buffer: usize,
    pub created: bool,
    pub grow_vertex: bool,
    pub grow_index: bool,
}

/// Abstract state of the store: every buffer pair ever created (indexed by its id),
/// the keys in use with the id of their buffer pair, and the ids of free pairs.
pub struct StoreView {
    pub buffers: Seq<GeometryBuffer>,
    pub in_use: Seq<(KeyView, usize)>,
    pub free: Seq<usize>,
}

impl StoreView {
    /// Each buffer pair is in exactly one of `in_use` and `free`, keys in use are
    /// distinct, and each pair's contents fit its capacities, with an even number of
    /// 2-byte indices so that index uploads are a multiple of 4 bytes.
    pub open spec fn wf(self) -> bool {
        &&& forall|i: int| 0 <= i < self.in_use.len() ==> #[trigger] self.in_use[i].1 < self.buffers.len()
        &&& forall|j: int| 0 <= j < self.free.len() ==> #[trigger] self.free[j] < self.buffers.len()
        &&& forall|i: int, j: int|
            0 <= i < j < self.in_use.len() ==> #[trigger] self.in_use[i].0 != #[trigger] self.in_use[j].0
                && self.in_use[i].1 != self.in_use[j].1
        &&& forall|i: int, j: int|
            0 <= i < j < self.free.len() ==> #[trigger] self.free[i] != #[trigger] self.free[j]
        &&& forall|i: int, j: int|
            0 <= i < self.in_use.len() && 0 <= j < self.free.len() ==> #[trigger] self.in_use[i].1
                != #[trigger] self.free[j]
        &&& self.in_use.len() + self.free.len() == self.buffers.len()
        &&& forall|b: int|
            0 <= b < self.buffers.len() ==> #[trigger] self.buffers[b].vertices
                <= self.buffers[b].vertex_capacity && self.buffers[b].indices
                <= self.buffers[b].index_capacity && self.buffers[b].indices % 2 == 0
    }

    pub open spec fn has_key(self, k: KeyView) -> bool {
        exists|i: int| 0 <= i < self.in_use.len() && #[trigger] self.in_use[i].0 == k
    }
}

/// How `malloc` of `key` with contents of `vertices` and `indices` elements turns
/// store `old` into `new`: the key goes in use with the last freed buffer pair, whose
/// capacities grow to fit, or with a new pair sized exactly when none is free.
pub open spec fn malloc_result(
    old: StoreView,
    new: StoreView,
    key: KeyView,
    vertices: usize,
    indices: usize,
    u: Upload,
) -> bool {
    &&& new.in_use == old.in_use.push((key, u.buffer))
    &&& capacities_kept(old.buffers, new.buffers)
    &&& old.free.len() > 0 ==> {
        &&& !u.created
        &&& u.buffer == old.free.last()
        &&& new.free == old.free.drop_last()
        &&& new.buffers == old.buffers.update(
            u.buffer as int,
            rewritten(old.buffers[u.buffer as int], vertices, indices),
        )
        &&& u.grow_vertex == (vertices > old.buffers[u.buffer as int].vertex_capacity)
        &&& u.grow_index == (indices > old.buffers[u.buffer as int].index_capacity)
    }
    &&& old.free.len() == 0 ==> {
        &&& u.created
        &&& u.buffer == old.buffers.len()
        &&& new.free == old.free
        &&& new.buffers == old.buffers.push(fresh_buffer(vertices, indices))
        &&& u.grow_vertex && u.grow_index
    }
}

/// Vertices plus indices held by the buffer pairs `ids`.
pub open spec fn elements_of(buffers: Seq<GeometryBuffer>, ids: Seq<usize>) -> int
    decreases ids.len(),
{
    if ids.len() == 0 {
        0
    } else {
        elements_of(buffers, ids.drop_last()) + buffers[ids.last() as int].vertices
            + buffers[ids.last() as int].indices
    }
}

/// `x`, or the largest `u64` where it is larger.
pub open spec fn saturated(x: int) -> u64 {
    if x > u64::MAX {
        u64::MAX
    } else {
        x as u64
    }
}

/// Ids of the buffer pairs in use.
pub open spec fn in_use_ids(s: StoreView) -> Seq<usize> {
    s.in_use.map_values(|e: (KeyView, usize)| e.1)
}

/// Vertices plus indices of the buffer pairs `ids`, saturating at the largest `u64`.
fn count_elements(buffers: &Vec<GeometryBuffer>, ids: &Vec<usize>) -> (r: u64)
    requires
        forall|j: int| 0 <= j < ids@.len() ==> #[trigger] ids@[j] < buffers@.len(),
    ensures
        r == saturated(elements_of(buffers@, ids@)),
{
    let mut acc: u64 = 0;
    let mut i: usize = 0;
    while i < ids.len()
        invariant
            forall|j: int| 0 <= j < ids@.len() ==> #[trigger] ids@[j] < buffers@.len(),
            i <= ids.len(),
            acc == saturated(elements_of(buffers@, ids@.take(i as int))),
            elements_of(buffers@, ids@.take(i as int)) >= 0,
        decreases ids.len() - i,
    {
        let b = buffers[ids[i]];
        assert(ids@.take(i + 1).drop_last() =~= ids@.take(i as int));
        acc = acc.saturating_add(b.vertices as u64).saturating_add(b.indices as u64);
        i = i + 1;
    }
    assert(ids@.take(ids.len() as int) =~= ids@);
    acc
}

/// Entries whose key is among `used`.
pub open spec fn kept_by(used: Seq<KeyView>) -> spec_fn((KeyView, usize)) -> bool {
    |e: (KeyView, usize)| used.contains(e.0)
}

/// The buffer id of an entry whose key is not among `used`.
pub open spec fn freed_by(used: Seq<KeyView>) -> spec_fn((KeyView, usize)) -> Option<usize> {
    |e: (KeyView, usize)|
        if used.contains(e.0) {
            None
        } else {
            Some(e.1)
        }
}

/// The abstract values of a list of keys.
pub open spec fn keys_view(keys: Seq<UniqueGeometry>) -> Seq<KeyView> {
    keys.map_values(|k: UniqueGeometry| k@)
}

/// Whether `key` is among `keys`.
pub fn contains_key(keys: &Vec<UniqueGeometry>, key: &UniqueGeometry) -> (r: bool)
    ensures
        r == keys_view(keys@).contains(key@),
{
    let mut i: usize = 0;
    while i < keys.len()
        invariant
            i <= keys.len(),
            forall|j: int| 0 <= j < i ==> keys@[j]@ != key@,
        decreases keys.len() - i,
    {
        if keys[i].same_as(key) {
            assert(keys_view(keys@)[i as int] == key@);
            return true;
        }
        i = i + 1;
    }
    assert forall|j: int| 0 <= j < keys_view(keys@).len() implies keys_view(keys@)[j] != key@ by {}
    false
}

/// The abstract values of a list of keys with their buffer ids.
pub open spec fn entries_view(s: Seq<(UniqueGeometry, usize)>) -> Seq<(KeyView, usize)> {
    s.map_values(|e: (UniqueGeometry, usize)| (e.0@, e.1))
}

/// Content-addressed store of tessellated geometry: buffer pairs in use under a key,
/// and a free list of pairs that a later miss reuses.
pub struct GeometryStore {
    buffers: Vec<GeometryBuffer>,
    in_use: Vec<(UniqueGeometry, usize)>,
    free: Vec<usize>,
}

impl View for GeometryStore {
    type V = StoreView;

    closed spec fn view(&self) -> StoreView {
        StoreView {
            buffers: self.buffers@,
            in_use: entries_view(self.in_use@),
            free: self.free@,
        }
    }
}

impl GeometryStore {
    /// An empty store.
    pub fn new() -> (r: Self)
        ensures
            r@.wf(),
            r@.buffers.len() == 0,
            r@.in_use.len() == 0,
            r@.free.len() == 0,
    {
        GeometryStore { buffers: Vec::new(), in_use: Vec::new(), free: Vec::new() }
    }

    /// Number of keys in use.
    pub fn in_use_len(&self) -> (r: usize)
        ensures
            r == self@.in_use.len(),
    {
        self.in_use.len()
    }

    /// Number of free buffer pairs.
    pub fn free_len(&self) -> (r: usize)
        ensures
            r == self@.free.len(),
    {
        self.free.len()
    }

    /// Number of buffer pairs created so far.
    pub fn buffer_count(&self) -> (r: usize)
        ensures
            r == self@.buffers.len(),
    {
        self.buffers.len()
    }

    /// Vertices plus indices held by free buffer pairs, saturating at the largest `u64`.
    pub fn free_elements(&self) -> (r: u64)
        requires
            self@.wf(),
        ensures
            r == saturated(elements_of(self@.buffers, self@.free)),
    {
        count_elements(&self.buffers, &self.free)
    }

    /// Vertices plus indices held by buffer pairs in use, saturating at the largest `u64`.
    pub fn used_elements(&self) -> (r: u64)
        requires
            self@.wf(),
        ensures
            r == saturated(elements_of(self@.buffers, in_use_ids(self@))),
    {
        let mut ids: Vec<usize> = Vec::new();
        let mut i: usize = 0;
        while i < self.in_use.len()
            invariant
                self@.wf(),
                i <= self.in_use.len(),
                ids@ == in_use_ids(self@).take(i as int),
            decreases self.in_use.len() - i,
        {
            ids.push(self.in_use[i].1);
            assert(ids@ =~= in_use_ids(self@).take(i + 1));
            i = i + 1;
        }
        assert(ids@ =~= in_use_ids(self@));
        assert forall|j: int| 0 <= j < ids@.len() implies #[trigger] ids@[j] < self.buffers@.len() by {
            assert(self@.in_use[j].1 < self@.buffers.len());
        }
        count_elements(&self.buffers, &ids)
    }

    /// The sizes of buffer pair `id`.
    pub fn buffer(&self, id: usize) -> (r: GeometryBuffer)
        requires
            id < self@.buffers.len(),
        ensures
            r == self@.buffers[id as int],
    {
        self.buffers[id]
    }

    /// The id of the buffer pair cached under `key`, if any.
    pub fn lookup(&self, key: &UniqueGeometry) -> (r: Option<usize>)
        requires
            self@.wf(),
        ensures
            r is Some <==> self@.has_key(key@),
            r matches Some(id) ==> id < self@.buffers.len(),
            r matches Some(id) ==> exists|i: int|
                0 <= i < self@.in_use.len() && self@.in_use[i] == (key@, id),
    {
        let mut i: usize = 0;
        while i < self.in_use.len()
            invariant
                self@.wf(),
                i <= self.in_use.len(),
                forall|j: int| 0 <= j < i ==> self@.in_use[j].0 != key@,
            decreases self.in_use.len() - i,
        {
            if self.in_use[i].0.same_as(key) {
                assert(self@.in_use[i as int] == (key@, self.in_use@[i as int].1));
                assert(self@.in_use[i as int].0 == key@);
                assert(self@.in_use[i as int].1 < self@.buffers.len());
                return Some(self.in_use[i].1);
            }
            i = i + 1;
        }
        None
    }

    /// Stores freshly tessellated contents of `vertices` and `indices` elements under
    /// a key that is not in use: in the last freed buffer pair, grown where it is too
    /// small, or in a new pair when none is free.
    pub fn malloc(&mut self, key: UniqueGeometry, vertices: usize, indices: usize) -> (u: Upload)
        requires
            old(self)@.wf(),
            !old(self)@.has_key(key@),
            indices % 2 == 0,
        ensures
            final(self)@.wf(),
            malloc_result(old(self)@, final(self)@, key@, vertices, indices, u),
    {
        let ghost old_v = self@;
        let ghost kv = key@;
        let u = match self.free.pop() {
            Some(id) => {
                let b = self.buffers[id];
                let grow_vertex = vertices > b.vertex_capacity;
                let grow_index = indices > b.index_capacity;
                let nb = GeometryBuffer {
                    vertices,
                    indices,
                    vertex_capacity: if grow_vertex {
                        vertices
                    } else {
                        b.vertex_capacity
                    },
                    index_capacity: if grow_index {
                        indices
                    } else {
                        b.index_capacity
                    },
                };
                self.buffers.set(id, nb);
                Upload { buffer: id, created: false, grow_vertex, grow_index }
            },
            None => {
                let id = self.buffers.len();
                self.buffers.push(
                    GeometryBuffer {
                        vertices,
                        indices,
                        vertex_capacity: vertices,
                        index_capacity: indices,
                    },
                );
                Upload { buffer: id, created: true, grow_vertex: true, grow_index: true }
            },
        };
        self.in_use.push((key, u.buffer));
        proof {
            let nv = self@;
            assert(nv.in_use =~= old_v.in_use.push((kv, u.buffer)));
            if old_v.free.len() > 0 {
                assert(nv.free =~= old_v.free.drop_last());
                assert forall|j: int| 0 <= j < nv.free.len() implies nv.free[j] != u.buffer by {
                    assert(old_v.free[j] != old_v.free[old_v.free.len() - 1]);
                }
                assert forall|i: int| 0 <= i < old_v.in_use.len() implies old_v.in_use[i].1 != u.buffer by {
                    assert(old_v.in_use[i].1 != old_v.free[old_v.free.len() - 1]);
                }
            }
            assert forall|i: int| 0 <= i < old_v.in_use.len() implies old_v.in_use[i].0 != kv by {}
            assert forall|i: int, j: int|
                0 <= i < j < nv.in_use.len() implies #[trigger] nv.in_use[i].0 != #[trigger] nv.in_use[j].0
                && nv.in_use[i].1 != nv.in_use[j].1 by {
                if j == nv.in_use.len() - 1 {
                    assert(nv.in_use[j] == (kv, u.buffer));
                    assert(nv.in_use[i] == old_v.in_use[i]);
                } else {
                    assert(nv.in_use[i] == old_v.in_use[i]);
                    assert(nv.in_use[j] == old_v.in_use[j]);
                }
            }
            assert forall|i: int, j: int|
                0 <= i < nv.in_use.len() && 0 <= j < nv.free.len() implies #[trigger] nv.in_use[i].1
                != #[trigger] nv.free[j] by {
                if i < old_v.in_use.len() {
                    assert(nv.in_use[i] == old_v.in_use[i]);
                    assert(nv.free[j] == old_v.free[j]);
                }
            }
            assert forall|i: int| 0 <= i < nv.in_use.len() implies #[trigger] nv.in_use[i].1 < nv.buffers.len() by {
                if i < old_v.in_use.len() {
                    assert(nv.in_use[i] == old_v.in_use[i]);
                }
            }
            assert forall|j: int| 0 <= j < nv.free.len() implies #[trigger] nv.free[j] < nv.buffers.len() by {
                assert(nv.free[j] == old_v.free[j]);
            }
        }
        u
    }

    /// Drops every buffer pair.
    pub fn clear(&mut self)
        ensures
            final(self)@.wf(),
            final(self)@.buffers.len() == 0,
            final(self)@.in_use.len() == 0,
            final(self)@.free.len() == 0,
    {
        self.buffers.clear();
        self.in_use.clear();
        self.free.clear();
    }

    /// End-of-frame sweep: moves the buffer pair of every key in use that is not
    /// among `used` to the free list.
    pub fn free_unused(&mut self, used: &Vec<UniqueGeometry>)
        requires
            old(self)@.wf(),
        ensures
            final(self)@.wf(),
            final(self)@.buffers == old(self)@.buffers,
            final(self)@.in_use == old(self)@.in_use.filter(kept_by(keys_view(used@))),
            final(self)@.free == old(self)@.free + old(self)@.in_use.filter_map(
                freed_by(keys_view(used@)),
            ),
    {
        let ghost uv = keys_view(used@);
        let ghost p = kept_by(uv);
        let ghost g = freed_by(uv);
        let ghost old_v = self@;
        let ghost nf = old_v.free.len();
        let mut kept: Vec<(UniqueGeometry, usize)> = Vec::new();
        let ghost mut kpos: Seq<int> = Seq::empty();
        let ghost mut rpos: Seq<int> = Seq::empty();
        let n = self.in_use.len();
        let mut i: usize = 0;
        while i < n
            invariant
                old_v.wf(),
                uv == keys_view(used@),
                p == kept_by(uv),
                g == freed_by(uv),
                nf == old_v.free.len(),
                n == self.in_use.len(),
                entries_view(self.in_use@) == old_v.in_use,
                self.buffers@ == old_v.buffers,
                i <= n,
                entries_view(kept@) == old_v.in_use.take(i as int).filter(p),
                self.free@ == old_v.free + old_v.in_use.take(i as int).filter_map(g),
                kpos.len() == kept.len(),
                kpos.len() + rpos.len() == i,
                forall|q: int|
                    0 <= q < kpos.len() ==> 0 <= #[trigger] kpos[q] < i && entries_view(kept@)[q]
                        == old_v.in_use[kpos[q]] && uv.contains(old_v.in_use[kpos[q]].0),
                forall|q: int, r: int| 0 <= q < r < kpos.len() ==> #[trigger] kpos[q] < #[trigger] kpos[r],
                rpos.len() + nf == self.free.len(),
                forall|q: int|
                    0 <= q < rpos.len() ==> 0 <= #[trigger] rpos[q] < i && self.free@[nf + q]
                        == old_v.in_use[rpos[q]].1 && !uv.contains(old_v.in_use[rpos[q]].0),
                forall|q: int, r: int| 0 <= q < r < rpos.len() ==> #[trigger] rpos[q] < #[trigger] rpos[r],
            decreases n - i,
        {
            let id = self.in_use[i].1;
            let keep = contains_key(used, &self.in_use[i].0);
            let ghost e = old_v.in_use[i as int];
            assert(entries_view(self.in_use@)[i as int] == e);
            reveal(Seq::filter);
            assert(e.0 == self.in_use@[i as int].0@);
            assert(keep == uv.contains(e.0));
            assert(p(e) == uv.contains(e.0));
            assert(old_v.in_use.take(i + 1).drop_last() =~= old_v.in_use.take(i as int));
            assert(old_v.in_use.take(i + 1).last() == e);
            if keep {
                let k = self.in_use[i].0.duplicate();
                kept.push((k, id));
                proof {
                    kpos = kpos.push(i as int);
                    assert(p(e));
                    assert(old_v.in_use.take(i + 1).filter(p) == old_v.in_use.take(i as int).filter(p).push(e));
                    assert(old_v.in_use.take(i + 1).filter_map(g) == old_v.in_use.take(i as int).filter_map(g));
                    assert(entries_view(kept@) =~= old_v.in_use.take(i as int).filter(p).push(e));
                }
            } else {
                self.free.push(id);
                proof {
                    rpos = rpos.push(i as int);
                    assert(!p(e));
                    assert(old_v.in_use.take(i + 1).filter(p) == old_v.in_use.take(i as int).filter(p));
                    assert(old_v.in_use.take(i + 1).filter_map(g) == old_v.in_use.take(i as int).filter_map(g) + seq![e.1]);
                    assert(self.free@ =~= old_v.free + old_v.in_use.take(i as int).filter_map(g)
                        + seq![e.1]);
                }
            }
            i = i + 1;
        }
        assert(old_v.in_use.take(n as int) =~= old_v.in_use);
        self.in_use = kept;
        proof {
            let nv = self@;
            assert(nv.in_use == entries_view(kept@));
            assert forall|i: int, j: int|
                0 <= i < j < nv.in_use.len() implies #[trigger] nv.in_use[i].0 != #[trigger] nv.in_use[j].0
                && nv.in_use[i].1 != nv.in_use[j].1 by {
                assert(kpos[i] < kpos[j]);
            }
            assert forall|i: int, j: int|
                0 <= i < j < nv.free.len() implies #[trigger] nv.free[i] != #[trigger] nv.free[j] by {
                if j >= nf && i >= nf {
                    assert(rpos[i - nf] < rpos[j - nf]);
                } else if j >= nf {
                    assert(nv.free[i] == old_v.free[i]);
                    assert(old_v.in_use[rpos[j - nf]].1 != old_v.free[i]);
                } else {
                    assert(nv.free[i] == old_v.free[i]);
                    assert(nv.free[j] == old_v.free[j]);
                }
            }
            assert forall|i: int, j: int|
                0 <= i < nv.in_use.len() && 0 <= j < nv.free.len() implies #[trigger] nv.in_use[i].1
                != #[trigger] nv.free[j] by {
                if j >= nf {
                    assert(kpos[i] != rpos[j - nf]);
                } else {
                    assert(nv.free[j] == old_v.free[j]);
                    assert(old_v.in_use[kpos[i]].1 != old_v.free[j]);
                }
            }
            assert forall|i: int| 0 <= i < nv.in_use.len() implies #[trigger] nv.in_use[i].1 < nv.buffers.len() by {
                assert(old_v.in_use[kpos[i]].1 < old_v.buffers.len());
            }
            assert forall|j: int| 0 <= j < nv.free.len() implies #[trigger] nv.free[j] < nv.buffers.len() by {
                if j >= nf {
                    assert(old_v.in_use[rpos[j - nf]].1 < old_v.buffers.len());
                } else {
                    assert(nv.free[j] == old_v.free[j]);
                }
            }
        }
    }
}

/// A value that `f` keeps from an element of `s` is in `s.filter_map(f)`.
proof fn lemma_filter_map_keeps<A, B>(s: Seq<A>, f: spec_fn(A) -> Option<B>, i: int)
    requires
        0 <= i < s.len(),
        f(s[i]) is Some,
    ensures
        s.filter_map(f).contains(f(s[i])->0),
    decreases s.len(),
{
    let rest = s.drop_last();
    let fm = s.filter_map(f);
    if i < s.len() - 1 {
        lemma_filter_map_keeps(rest, f, i);
        assert(rest[i] == s[i]);
        let k = choose|k: int| 0 <= k < rest.filter_map(f).len() && rest.filter_map(f)[k] == f(s[i])->0;
        match f(s.last()) {
            Some(x) => {
                assert(fm == rest.filter_map(f) + seq![x]);
                assert(fm[k] == f(s[i])->0);
            },
            None => {
                assert(fm[k] == f(s[i])->0);
            },
        }
    } else {
        assert(s.last() == s[i]);
        assert(fm == rest.filter_map(f) + seq![f(s[i])->0]);
        assert(fm[fm.len() - 1] == f(s[i])->0);
    }
}

/// End-of-frame sweep: every key left in use is among `used`, and the buffer pair of
/// every key that was in use and is not among `used` is now free.
pub proof fn lemma_sweep(old: StoreView, new: StoreView, used: Seq<KeyView>)
    requires
        new.in_use == old.in_use.filter(kept_by(used)),
        new.free == old.free + old.in_use.filter_map(freed_by(used)),
    ensures
        forall|i: int| 0 <= i < new.in_use.len() ==> used.contains(#[trigger] new.in_use[i].0),
        forall|i: int|
            0 <= i < old.in_use.len() && !used.contains(#[trigger] old.in_use[i].0)
                ==> new.free.contains(old.in_use[i].1),
{
    assert forall|i: int| 0 <= i < new.in_use.len() implies used.contains(#[trigger] new.in_use[i].0) by {
        old.in_use.lemma_filter_pred(kept_by(used), i);
    }
    assert forall|i: int|
        0 <= i < old.in_use.len() && !used.contains(#[trigger] old.in_use[i].0) implies new.free.contains(
        old.in_use[i].1,
    ) by {
        let g = freed_by(used);
        lemma_filter_map_keeps(old.in_use, g, i);
        let fm = old.in_use.filter_map(g);
        let k = choose|k: int| 0 <= k < fm.len() && fm[k] == old.in_use[i].1;
        assert(new.free[old.free.len() + k] == old.in_use[i].1);
    }
}

/// Capacities never decrease over a buffer pair's lifetime: keeping them is transitive.
pub proof fn lemma_capacities_kept_trans(
    a: Seq<GeometryBuffer>,
    b: Seq<GeometryBuffer>,
    c: Seq<GeometryBuffer>,
)
    requires
        capacities_kept(a, b),
        capacities_kept(b, c),
    ensures
        capacities_kept(a, c),
{
    assert forall|i: int| 0 <= i < a.len() implies a[i].vertex_capacity <= #[trigger] c[i].vertex_capacity
        && a[i].index_capacity <= c[i].index_capacity by {
        assert(a[i].vertex_capacity <= b[i].vertex_capacity);
        assert(b[i].vertex_capacity <= c[i].vertex_capacity);
    }
}

} // verus!
