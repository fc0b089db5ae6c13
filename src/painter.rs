use crate::error::PainterError;
use crate::geometry::{Color, KeyView, UniqueGeometry};
use crate::mem_align::{rounded_up, MemAlign, PAGE_SIZE};
use crate::store::{
    freed_by, keys_view, kept_by, malloc_result, GeometryStore, StoreView, Upload,
};
use crate::transform::{step, TransformOp, TransformStack, TransformState};
use vstd::prelude::*;

verus! {

/// Bytes of one uniform slot: a 4x4 matrix padded to the dynamic-offset alignment.
pub const UNIFORM_SLOT_SIZE: usize = 256;

/// Uniform slots that the first uniform buffer has room for.
pub const INITIAL_UNIFORM_SLOTS: usize = 100;

/// Most uniform slots a frame may hold, so that the uniform buffer's size fits a `usize`.
pub const MAX_UNIFORM_SLOTS: usize = 0x007f_ffff;

/// A deferred draw: the cached geometry under `key` (buffer pair `buffer`), drawn with
/// the matrix in uniform slot `uniform_slot`. The transform is kept for diagnostics.
pub struct Command<M> {
    pub key: UniqueGeometry,
    pub buffer: usize,
    pub uniform_slot: usize,
    pub vertices: usize,
    pub indices: usize,
    pub transform: M,
}

/// Abstract value of a command.
pub struct CommandView<M> {
    pub key: KeyView,
    pub buffer: usize,
    pub uniform_slot: usize,
    pub vertices: usize,
    pub indices: usize,
    pub transform: M,
}

impl<M> View for Command<M> {
    type V = CommandView<M>;

    open spec fn view(&self) -> CommandView<M> {
        CommandView {
            key: self.key@,
            buffer: self.buffer,
            uniform_slot: self.uniform_slot,
            vertices: self.vertices,
            indices: self.indices,
            transform: self.transform,
        }
    }
}

/// One draw of a flushed frame: bind the uniform slot at byte `uniform_offset`, the
/// buffer pair `buffer`, and draw `indices` indices.
#[derive(Debug, Clone, Copy, PartialEq, Eq, Structural)]
pub struct Draw {
    pub buffer: usize,
    pub uniform_offset: usize,
    pub vertices: usize,
    pub indices: usize,
}

/// The draw that executes a command.
pub open spec fn draw_of<M>(c: CommandView<M>) -> Draw {
    Draw {
        buffer: c.buffer,
        uniform_offset: (c.uniform_slot * UNIFORM_SLOT_SIZE) as usize,
        vertices: c.vertices,
        indices: c.indices,
    }
}

/// What the GPU side must do for one frame: upload `uniforms` into a buffer of
/// `uniform_bytes` bytes (created anew when `resized`), then issue `draws` in order.
pub struct FlushPlan<U> {
    pub draws: Vec<Draw>,
    pub uniforms: Vec<U>,
    pub uniform_bytes: usize,
    pub resized: bool,
}

/// Abstract state of the painter.
pub struct PainterView<M, U> {
    pub size: (u32, u32),
    pub clear_color: Color,
    pub transforms: TransformState<M>,
    pub commands: Seq<CommandView<M>>,
    pub uniforms: Seq<U>,
    pub store: StoreView,
    pub uniform_capacity: nat,
    pub uniform_bytes: nat,
    pub misses: nat,
}

/// The store holds `key` with buffer pair `buffer`.
pub open spec fn has_entry(s: StoreView, key: KeyView, buffer: usize) -> bool {
    exists|i: int| 0 <= i < s.in_use.len() && #[trigger] s.in_use[i] == (key, buffer)
}

impl<M, U> PainterView<M, U> {
    /// Command `i` draws with uniform slot `i` and refers to geometry that is cached,
    /// with the sizes that the cache holds; the uniform buffer is laid out in whole
    /// slots.
    pub open spec fn wf(self) -> bool {
        &&& self.store.wf()
        &&& self.commands.len() == self.uniforms.len()
        &&& self.uniforms.len() <= MAX_UNIFORM_SLOTS
        &&& self.misses <= self.commands.len()
        &&& forall|i: int|
            0 <= i < self.commands.len() ==> {
                let c = #[trigger] self.commands[i];
                &&& c.uniform_slot == i
                &&& has_entry(self.store, c.key, c.buffer)
                &&& self.store.buffers[c.buffer as int].vertices == c.vertices
                &&& self.store.buffers[c.buffer as int].indices == c.indices
            }
        &&& vstd::layout::size_of::<U>() == UNIFORM_SLOT_SIZE
        &&& self.uniform_capacity * UNIFORM_SLOT_SIZE <= self.uniform_bytes
        &&& self.uniform_capacity >= INITIAL_UNIFORM_SLOTS
    }

    /// The same painter with one more command, drawn with `uniform`.
    pub open spec fn with_command(
        self,
        key: KeyView,
        buffer: usize,
        uniform: U,
        store: StoreView,
        misses: nat,
    ) -> PainterView<M, U> {
        PainterView {
            commands: self.commands.push(
                CommandView {
                    key,
                    buffer,
                    uniform_slot: self.uniforms.len() as usize,
                    vertices: store.buffers[buffer as int].vertices,
                    indices: store.buffers[buffer as int].indices,
                    transform: self.transforms.current,
                },
            ),
            uniforms: self.uniforms.push(uniform),
            store,
            misses,
            ..self
        }
    }
}

/// Pads an index list with zero indices until its byte length, at two bytes per
/// index, is a multiple of four.
pub fn pad_indices(indices: &mut Vec<u16>)
    ensures
        old(indices)@.len() % 2 == 0 ==> final(indices)@ == old(indices)@,
        old(indices)@.len() % 2 == 1 ==> final(indices)@ == old(indices)@.push(0),
        (final(indices)@.len() * 2) % 4 == 0,
{
    if indices.len() % 2 == 1 {
        indices.push(0);
    }
}

/// Bytes of the view-projection matrix at the start of a uniform slot.
pub const MATRIX_BYTES: usize = 64;

/// A uniform slot: the matrix bytes first, then zero padding up to the slot size.
pub fn uniform_slot(matrix: [u8; 64]) -> (r: [u8; 256])
    ensures
        r@.subrange(0, MATRIX_BYTES as int) == matrix@,
        forall|i: int| MATRIX_BYTES <= i < UNIFORM_SLOT_SIZE ==> #[trigger] r@[i] == 0,
{
    let mut r = [0u8; 256];
    let mut i: usize = 0;
    while i < MATRIX_BYTES
        invariant
            i <= MATRIX_BYTES,
            r@.len() == UNIFORM_SLOT_SIZE,
            forall|j: int| 0 <= j < i ==> #[trigger] r@[j] == matrix@[j],
            forall|j: int| MATRIX_BYTES <= j < UNIFORM_SLOT_SIZE ==> #[trigger] r@[j] == 0,
        decreases MATRIX_BYTES - i,
    {
        r[i] = matrix[i];
        i = i + 1;
    }
    assert(r@.subrange(0, MATRIX_BYTES as int) =~= matrix@);
    r
}

/// An index list after `pad_indices`.
pub open spec fn padded(indices: Seq<u16>) -> Seq<u16> {
    if indices.len() % 2 == 1 {
        indices.push(0)
    } else {
        indices
    }
}

/// The keys of a list of commands.
pub open spec fn command_keys<M>(cs: Seq<CommandView<M>>) -> Seq<KeyView> {
    cs.map_values(|c: CommandView<M>| c.key)
}

/// A buffer pair that a command in use refers to is not the one that `malloc` reuses.
proof fn lemma_entry_not_free(s: StoreView, key: KeyView, buffer: usize)
    requires
        s.wf(),
        has_entry(s, key, buffer),
        s.free.len() > 0,
    ensures
        buffer != s.free.last(),
{
    let i = choose|i: int| 0 <= i < s.in_use.len() && #[trigger] s.in_use[i] == (key, buffer);
    assert(s.in_use[i].1 != s.free[s.free.len() - 1]);
}

/// The painter's state: transform stack, command list, one uniform per command,
/// geometry cache and the layout of the uniform buffer. `M` is the transform type and
/// `U` the uniform record uploaded per slot.
pub struct Painter<M, U> {
    size: (u32, u32),
    clear_color: Color,
    transforms: TransformStack<M>,
    commands: Vec<Command<M>>,
    uniforms: Vec<U>,
    store: GeometryStore,
    uniform_layout: MemAlign<U>,
    misses: usize,
}

impl<M, U> View for Painter<M, U> {
    type V = PainterView<M, U>;

    closed spec fn view(&self) -> PainterView<M, U> {
        PainterView {
            size: self.size,
            clear_color: self.clear_color,
            transforms: self.transforms@,
            commands: self.commands@.map_values(|c: Command<M>| c@),
            uniforms: self.uniforms@,
            store: self.store@,
            uniform_capacity: self.uniform_layout.spec_capacity(),
            uniform_bytes: self.uniform_layout.spec_byte_size(),
            misses: self.misses as nat,
        }
    }
}

impl<M: Copy, U> Painter<M, U> {
    /// A painter for a surface of `size`, with transform `identity`, nothing drawn,
    /// an empty cache, a black clear color and room for the initial uniform slots;
    /// `None` unless a uniform record `U` fills exactly one slot.
    pub fn new(size: (u32, u32), identity: M) -> (r: Option<Self>)
        ensures
            r is Some <==> vstd::layout::size_of::<U>() == UNIFORM_SLOT_SIZE,
            r matches Some(p) ==> {
                &&& p@.wf()
                &&& p@.size == size
                &&& p@.clear_color == (Color { r: 0, g: 0, b: 0, a: crate::geometry::ONE_BITS })
                &&& p@.transforms == (TransformState {
                    current: identity,
                    saved: Seq::<M>::empty(),
                    identity,
                })
                &&& p@.commands.len() == 0
                &&& p@.store.buffers.len() == 0 && p@.store.in_use.len() == 0
                    && p@.store.free.len() == 0
                &&& p@.misses == 0
                &&& p@.uniform_bytes == rounded_up(
                    UNIFORM_SLOT_SIZE * INITIAL_UNIFORM_SLOTS,
                    PAGE_SIZE as int,
                )
                &&& p@.uniform_capacity == p@.uniform_bytes / (UNIFORM_SLOT_SIZE as nat)
                &&& p@.uniform_capacity >= INITIAL_UNIFORM_SLOTS
            },
    {
        if std::mem::size_of::<U>() != UNIFORM_SLOT_SIZE {
            return None;
        }
        assert(25600int % 4096int == 1024int);
        assert(rounded_up(25600int, 4096int) == 28672);
        let uniform_layout = MemAlign::<U>::new(INITIAL_UNIFORM_SLOTS);
        let r = Painter {
            size,
            clear_color: Color { r: 0, g: 0, b: 0, a: crate::geometry::ONE_BITS },
            transforms: TransformStack::new(identity),
            commands: Vec::new(),
            uniforms: Vec::new(),
            store: GeometryStore::new(),
            uniform_layout,
            misses: 0,
        };
        proof {
            assert(r@.uniform_capacity * UNIFORM_SLOT_SIZE <= r@.uniform_bytes) by {
                vstd::arithmetic::div_mod::lemma_fundamental_div_mod(28672, 256);
            }
        }
        Some(r)
    }
}

impl<M: Copy, U> Painter<M, U> {
    pub fn size(&self) -> (r: (u32, u32))
        ensures
            r == self@.size,
    {
        self.size
    }

    /// Sets the size of the surface; a size with a zero side is ignored. Returns
    /// whether the size was taken, in which case the surface must be reconfigured.
    pub fn resize(&mut self, size: (u32, u32)) -> (r: bool)
        ensures
            r == (size.0 > 0 && size.1 > 0),
            r ==> final(self)@ == (PainterView { size, ..old(self)@ }),
            !r ==> final(self)@ == old(self)@,
    {
        if size.0 > 0 && size.1 > 0 {
            self.size = size;
            true
        } else {
            false
        }
    }

    pub fn clear_color(&self) -> (r: Color)
        ensures
            r == self@.clear_color,
    {
        self.clear_color
    }

    /// Sets the color that the next frame is cleared to.
    pub fn set_clear_color(&mut self, color: Color)
        ensures
            final(self)@ == (PainterView { clear_color: color, ..old(self)@ }),
    {
        self.clear_color = color;
    }

    pub fn transform(&self) -> (r: M)
        ensures
            r == self@.transforms.current,
    {
        self.transforms.current()
    }

    /// Number of saved transforms.
    pub fn saved_transforms(&self) -> (r: usize)
        ensures
            r == self@.transforms.saved.len(),
    {
        self.transforms.depth()
    }

    /// Replaces the current transform (by its product with a local transform).
    pub fn set_transform(&mut self, m: M)
        ensures
            final(self)@ == (PainterView {
                transforms: step(old(self)@.transforms, TransformOp::Replace(m)),
                ..old(self)@
            }),
    {
        self.transforms.set_current(m);
    }

    pub fn save(&mut self)
        ensures
            final(self)@ == (PainterView {
                transforms: step(old(self)@.transforms, TransformOp::Save),
                ..old(self)@
            }),
    {
        self.transforms.save();
    }

    pub fn restore(&mut self) -> (r: Result<(), PainterError>)
        ensures
            final(self)@ == (PainterView {
                transforms: step(old(self)@.transforms, TransformOp::Restore),
                ..old(self)@
            }),
            r is Err <==> old(self)@.transforms.saved.len() == 0,
            r is Err ==> r == Err::<(), PainterError>(PainterError::TransformUnderflow),
    {
        self.transforms.restore()
    }

    pub fn reset(&mut self)
        ensures
            final(self)@ == (PainterView {
                transforms: step(old(self)@.transforms, TransformOp::Reset),
                ..old(self)@
            }),
    {
        self.transforms.reset();
    }

    /// Number of commands recorded in this frame.
    pub fn command_count(&self) -> (r: usize)
        ensures
            r == self@.commands.len(),
    {
        self.commands.len()
    }

    /// Command `i` of this frame.
    pub fn command(&self, i: usize) -> (r: &Command<M>)
        requires
            i < self@.commands.len(),
        ensures
            r@ == self@.commands[i as int],
    {
        &self.commands[i]
    }

    /// Whether the frame has room for one more draw: `InvalidArgument` once it holds
    /// the most uniform slots a frame may hold.
    pub fn check_room(&self) -> (r: Result<(), PainterError>)
        ensures
            r is Ok <==> self@.uniforms.len() < MAX_UNIFORM_SLOTS,
            r is Err ==> r == Err::<(), PainterError>(PainterError::InvalidArgument),
    {
        if self.uniforms.len() < MAX_UNIFORM_SLOTS {
            Ok(())
        } else {
            Err(PainterError::InvalidArgument)
        }
    }

    /// Number of tessellations in this frame.
    pub fn misses(&self) -> (r: usize)
        ensures
            r == self@.misses,
    {
        self.misses
    }

    /// The geometry cache.
    pub fn store(&self) -> (r: &GeometryStore)
        ensures
            r@ == self@.store,
    {
        &self.store
    }

    /// Number of uniform slots that the uniform buffer has room for.
    pub fn uniform_capacity(&self) -> (r: usize)
        ensures
            r == self@.uniform_capacity,
    {
        self.uniform_layout.capacity()
    }

    /// Draws the geometry cached under `key`, if there is any, with `uniform` in a
    /// new slot; returns whether it did. On a miss nothing changes, and the caller
    /// tessellates and calls `issue_tessellated`.
    pub fn issue_cached(&mut self, key: UniqueGeometry, uniform: U) -> (hit: bool)
        requires
            old(self)@.wf(),
            old(self)@.uniforms.len() < MAX_UNIFORM_SLOTS,
        ensures
            final(self)@.wf(),
            hit == old(self)@.store.has_key(key@),
            hit ==> exists|b: usize|
                has_entry(old(self)@.store, key@, b) && final(self)@ == old(self)@.with_command(
                    key@,
                    b,
                    uniform,
                    old(self)@.store,
                    old(self)@.misses,
                ),
            !hit ==> final(self)@ == old(self)@,
    {
        match self.store.lookup(&key) {
            Some(id) => {
                let ghost old_v = self@;
                let b = self.store.buffer(id);
                let slot = self.uniforms.len();
                let transform = self.transforms.current();
                self.uniforms.push(uniform);
                self.commands.push(
                    Command {
                        key,
                        buffer: id,
                        uniform_slot: slot,
                        vertices: b.vertices,
                        indices: b.indices,
                        transform,
                    },
                );
                proof {
                    assert(has_entry(old_v.store, key@, id));
                    assert(self@.commands =~= old_v.with_command(key@, id, uniform, old_v.store, old_v.misses).commands);
                    assert(self@.uniforms =~= old_v.uniforms.push(uniform));
                    assert forall|i: int| 0 <= i < self@.commands.len() implies {
                        let c = #[trigger] self@.commands[i];
                        &&& c.uniform_slot == i
                        &&& has_entry(self@.store, c.key, c.buffer)
                        &&& self@.store.buffers[c.buffer as int].vertices == c.vertices
                        &&& self@.store.buffers[c.buffer as int].indices == c.indices
                    } by {
                        if i < old_v.commands.len() {
                            assert(self@.commands[i] == old_v.commands[i]);
                        }
                    }
                }
                true
            },
            None => false,
        }
    }

    /// Stores freshly tessellated geometry of `vertices` and `indices` elements under
    /// a key that is not cached and draws it with `uniform` in a new slot. Returns
    /// what the GPU side must do to hold the contents.
    pub fn issue_tessellated(
        &mut self,
        key: UniqueGeometry,
        uniform: U,
        vertices: usize,
        indices: usize,
    ) -> (u: Upload)
        requires
            old(self)@.wf(),
            old(self)@.uniforms.len() < MAX_UNIFORM_SLOTS,
            !old(self)@.store.has_key(key@),
            indices % 2 == 0,
        ensures
            final(self)@.wf(),
            malloc_result(old(self)@.store, final(self)@.store, key@, vertices, indices, u),
            final(self)@.store.has_key(key@),
            final(self)@ == old(self)@.with_command(
                key@,
                u.buffer,
                uniform,
                final(self)@.store,
                old(self)@.misses + 1,
            ),
    {
        let ghost old_v = self@;
        let ghost kv = key@;
        let k2 = key.duplicate();
        let u = self.store.malloc(k2, vertices, indices);
        let slot = self.uniforms.len();
        let transform = self.transforms.current();
        self.uniforms.push(uniform);
        self.commands.push(
            Command { key, buffer: u.buffer, uniform_slot: slot, vertices, indices, transform },
        );
        self.misses = self.misses + 1;
        proof {
            let nv = self@;
            assert(nv.store.in_use[old_v.store.in_use.len() as int] == (kv, u.buffer));
            assert(has_entry(nv.store, kv, u.buffer));
            lemma_cached_after_miss(old_v.store, nv.store, kv, vertices, indices, u);
            if old_v.store.free.len() > 0 {
                assert(nv.store.buffers[u.buffer as int] == crate::store::rewritten(
                    old_v.store.buffers[u.buffer as int], vertices, indices));
            } else {
                assert(nv.store.buffers[u.buffer as int] == crate::store::fresh_buffer(vertices, indices));
            }
            assert(nv.commands =~= old_v.with_command(kv, u.buffer, uniform, nv.store, old_v.misses + 1).commands);
            assert(nv.uniforms =~= old_v.uniforms.push(uniform));
            assert forall|i: int| 0 <= i < nv.commands.len() implies {
                let c = #[trigger] nv.commands[i];
                &&& c.uniform_slot == i
                &&& has_entry(nv.store, c.key, c.buffer)
                &&& nv.store.buffers[c.buffer as int].vertices == c.vertices
                &&& nv.store.buffers[c.buffer as int].indices == c.indices
            } by {
                if i < old_v.commands.len() {
                    let c = old_v.commands[i];
                    assert(nv.commands[i] == c);
                    let j = choose|j: int| 0 <= j < old_v.store.in_use.len() && #[trigger] old_v.store.in_use[j] == (c.key, c.buffer);
                    assert(nv.store.in_use[j] == (c.key, c.buffer));
                    assert(old_v.store.in_use[j].1 < old_v.store.buffers.len());
                    if old_v.store.free.len() > 0 {
                        lemma_entry_not_free(old_v.store, c.key, c.buffer);
                    }
                    assert(nv.store.buffers[c.buffer as int] == old_v.store.buffers[c.buffer as int]);
                } else {
                    assert(nv.commands[i].buffer == u.buffer);
                }
            }
        }
        u
    }
    /// Handles a fresh tessellation of a key that is not cached: one with no vertex is
    /// skipped and changes nothing; otherwise `indices` is padded to a multiple of 4
    /// bytes and the geometry is stored and drawn as `issue_tessellated` does.
    pub fn issue_geometry(
        &mut self,
        key: UniqueGeometry,
        uniform: U,
        vertices: usize,
        indices: &mut Vec<u16>,
    ) -> (r: Option<Upload>)
        requires
            old(self)@.wf(),
            old(self)@.uniforms.len() < MAX_UNIFORM_SLOTS,
            !old(self)@.store.has_key(key@),
        ensures
            final(self)@.wf(),
            vertices == 0 ==> r is None && final(self)@ == old(self)@ && final(indices)@ == old(
                indices,
            )@,
            vertices > 0 ==> final(indices)@ == padded(old(indices)@) && (r matches Some(u) && {
                &&& malloc_result(
                    old(self)@.store,
                    final(self)@.store,
                    key@,
                    vertices,
                    final(indices)@.len() as usize,
                    u,
                )
                &&& final(self)@.store.has_key(key@)
                &&& final(self)@ == old(self)@.with_command(
                    key@,
                    u.buffer,
                    uniform,
                    final(self)@.store,
                    old(self)@.misses + 1,
                )
            }),
    {
        if vertices == 0 {
            return None;
        }
        pad_indices(indices);
        let n = indices.len();
        Some(self.issue_tessellated(key, uniform, vertices, n))
    }

    /// Ends a frame once the next surface image is acquired: lays the uniform buffer
    /// out for every slot of the frame, hands out the uniforms and the draws in
    /// command order, moves the geometry that no command of the frame used to the free
    /// list, and clears commands, uniforms and the transform stack.
    pub fn flush(&mut self) -> (plan: FlushPlan<U>)
        requires
            old(self)@.wf(),
        ensures
            final(self)@.wf(),
            final(self)@.commands.len() == 0,
            final(self)@.uniforms.len() == 0,
            final(self)@.misses == 0,
            final(self)@.transforms == (TransformState {
                current: old(self)@.transforms.identity,
                saved: Seq::<M>::empty(),
                identity: old(self)@.transforms.identity,
            }),
            final(self)@.size == old(self)@.size,
            final(self)@.clear_color == old(self)@.clear_color,
            plan.draws@ == old(self)@.commands.map_values(|c: CommandView<M>| draw_of(c)),
            plan.uniforms@ == old(self)@.uniforms,
            plan.resized == (old(self)@.uniforms.len() > old(self)@.uniform_capacity),
            !plan.resized ==> final(self)@.uniform_capacity == old(self)@.uniform_capacity
                && final(self)@.uniform_bytes == old(self)@.uniform_bytes,
            plan.resized ==> final(self)@.uniform_bytes == rounded_up(
                UNIFORM_SLOT_SIZE * old(self)@.uniforms.len(),
                PAGE_SIZE as int,
            ) && final(self)@.uniform_capacity == final(self)@.uniform_bytes / (
            UNIFORM_SLOT_SIZE as nat),
            final(self)@.uniform_capacity >= old(self)@.uniforms.len(),
            plan.uniform_bytes == final(self)@.uniform_bytes,
            forall|i: int|
                0 <= i < plan.draws@.len() ==> (#[trigger] plan.draws@[i]).uniform_offset
                    % UNIFORM_SLOT_SIZE == 0 && plan.draws@[i].uniform_offset + UNIFORM_SLOT_SIZE
                    <= plan.uniform_bytes && (plan.draws@[i].indices * 2) % 4 == 0,
            final(self)@.store.buffers == old(self)@.store.buffers,
            final(self)@.store.in_use == old(self)@.store.in_use.filter(
                kept_by(command_keys(old(self)@.commands)),
            ),
            final(self)@.store.free == old(self)@.store.free + old(self)@.store.in_use.filter_map(
                freed_by(command_keys(old(self)@.commands)),
            ),
    {
        let ghost old_v = self@;
        let len = self.uniforms.len();
        let resized = len > self.uniform_layout.capacity();
        if resized {
            proof {
                assert(256 * len <= 0x7fff_ff00) by (nonlinear_arith)
                    requires
                        len <= MAX_UNIFORM_SLOTS,
                ;
                assert(vstd::layout::size_of::<U>() * len == 256 * len);
                assert(rounded_up(256 * len, PAGE_SIZE as int) < 256 * len + PAGE_SIZE);
            }
            self.uniform_layout = MemAlign::new(len);
        }
        proof {
            let cap = self.uniform_layout.spec_capacity();
            assert(vstd::layout::size_of::<U>() * cap == 256 * cap);
            assert(256 * cap <= self.uniform_layout.spec_byte_size());
        }
        let mut draws: Vec<Draw> = Vec::new();
        let mut used: Vec<UniqueGeometry> = Vec::new();
        let n = self.commands.len();
        let mut i: usize = 0;
        while i < n
            invariant
                self@ == (PainterView {
                    uniform_capacity: self@.uniform_capacity,
                    uniform_bytes: self@.uniform_bytes,
                    ..old_v
                }),
                old_v.wf(),
                self@.uniform_capacity >= len,
                self@.uniform_capacity * UNIFORM_SLOT_SIZE <= self@.uniform_bytes,
                n == old_v.commands.len(),
                n == self.commands.len(),
                len == n,
                i <= n,
                draws@.len() == i,
                used@.len() == i,
                forall|j: int| 0 <= j < i ==> #[trigger] draws@[j] == draw_of(old_v.commands[j]),
                forall|j: int| 0 <= j < i ==> (#[trigger] used@[j])@ == old_v.commands[j].key,
            decreases n - i,
        {
            let c = &self.commands[i];
            assert(old_v.commands[i as int] == c@);
            let slot = c.uniform_slot;
            assert(slot == i);
            let offset = slot * UNIFORM_SLOT_SIZE;
            draws.push(
                Draw { buffer: c.buffer, uniform_offset: offset, vertices: c.vertices, indices: c.indices },
            );
            used.push(c.key.duplicate());
            i = i + 1;
        }
        proof {
            assert(keys_view(used@) =~= command_keys(old_v.commands));
            assert(draws@ =~= old_v.commands.map_values(|c: CommandView<M>| draw_of(c)));
            assert forall|i: int| 0 <= i < draws@.len() implies (#[trigger] draws@[i]).uniform_offset
                % UNIFORM_SLOT_SIZE == 0 && draws@[i].uniform_offset + UNIFORM_SLOT_SIZE
                <= self@.uniform_bytes && (draws@[i].indices * 2) % 4 == 0 by {
                let cap = self@.uniform_capacity;
                let c = old_v.commands[i];
                assert(old_v.store.buffers[c.buffer as int].indices % 2 == 0) by {
                    let j = choose|j: int| 0 <= j < old_v.store.in_use.len() && #[trigger] old_v.store.in_use[j] == (c.key, c.buffer);
                    assert(old_v.store.in_use[j].1 < old_v.store.buffers.len());
                }
                assert(draws@[i].indices == c.indices);
                let x = c.indices as int;
                assert((x * 2) % 4 == 0) by {
                    vstd::arithmetic::div_mod::lemma_fundamental_div_mod(x, 2);
                    assert(x * 2 == (x / 2) * 4);
                    vstd::arithmetic::div_mod::lemma_mod_multiples_basic(x / 2, 4);
                }
                assert(draws@[i].uniform_offset == i * 256);
                assert((i + 1) * 256 <= cap * 256) by (nonlinear_arith)
                    requires
                        i < len,
                        len <= cap,
                ;
                vstd::arithmetic::div_mod::lemma_mod_multiples_basic(i, 256);
            }
        }
        self.store.free_unused(&used);
        let mut uniforms: Vec<U> = Vec::new();
        std::mem::swap(&mut uniforms, &mut self.uniforms);
        self.commands.clear();
        self.transforms.clear();
        self.misses = 0;
        let uniform_bytes = self.uniform_layout.byte_size();
        proof {
            assert(self@.commands =~= Seq::<CommandView<M>>::empty());
        }
        FlushPlan { draws, uniforms, uniform_bytes, resized }
    }

    /// Drops the commands, uniforms, saved transforms and all cached geometry, and
    /// resets the transform.
    pub fn clear(&mut self)
        requires
            old(self)@.wf(),
        ensures
            final(self)@.wf(),
            final(self)@ == (PainterView {
                transforms: TransformState {
                    current: old(self)@.transforms.identity,
                    saved: Seq::<M>::empty(),
                    identity: old(self)@.transforms.identity,
                },
                commands: Seq::<CommandView<M>>::empty(),
                uniforms: Seq::<U>::empty(),
                store: final(self)@.store,
                misses: 0,
                ..old(self)@
            }),
            final(self)@.store.buffers.len() == 0,
            final(self)@.store.in_use.len() == 0,
            final(self)@.store.free.len() == 0,
    {
        self.commands.clear();
        self.uniforms.clear();
        self.transforms.clear();
        self.store.clear();
        self.misses = 0;
        proof {
            assert(self@.commands =~= Seq::<CommandView<M>>::empty());
            assert(self@.uniforms =~= Seq::<U>::empty());
        }
    }
}

/// Equal keys in a frame share one tessellation: two commands with the same key draw
/// the same buffer pair, with the same vertex and index counts.
pub proof fn lemma_equal_keys_share_geometry<M, U>(p: PainterView<M, U>, i: int, j: int)
    requires
        p.wf(),
        0 <= i < p.commands.len(),
        0 <= j < p.commands.len(),
        p.commands[i].key == p.commands[j].key,
    ensures
        p.commands[i].buffer == p.commands[j].buffer,
        p.commands[i].vertices == p.commands[j].vertices,
        p.commands[i].indices == p.commands[j].indices,
{
    let ci = p.commands[i];
    let cj = p.commands[j];
    let a = choose|a: int| 0 <= a < p.store.in_use.len() && #[trigger] p.store.in_use[a] == (ci.key, ci.buffer);
    let b = choose|b: int| 0 <= b < p.store.in_use.len() && #[trigger] p.store.in_use[b] == (cj.key, cj.buffer);
    if a < b {
        assert(p.store.in_use[a].0 != p.store.in_use[b].0);
    } else if b < a {
        assert(p.store.in_use[b].0 != p.store.in_use[a].0);
    }
}

/// A miss stores its key: a later draw of the same key in the frame finds it cached.
pub proof fn lemma_cached_after_miss(
    old: StoreView,
    new: StoreView,
    key: KeyView,
    vertices: usize,
    indices: usize,
    u: Upload,
)
    requires
        malloc_result(old, new, key, vertices, indices, u),
    ensures
        new.has_key(key),
        has_entry(new, key, u.buffer),
{
    assert(new.in_use[old.in_use.len() as int] == (key, u.buffer));
    assert(new.in_use[old.in_use.len() as int].0 == key);
}

/// One tessellation per key in a frame: after a miss stores `key` (painter `p0` to
/// `p1`), the key is cached, so a later draw of it hits and leaves the cache as it is
/// (`issue_cached`), and the buffer pair it finds is the one the miss filled: the
/// second command draws the same contents, with the same sizes, as the first.
pub proof fn lemma_repeat_key_one_tessellation<M, U>(
    p0: PainterView<M, U>,
    p1: PainterView<M, U>,
    key: KeyView,
    first: U,
    second: U,
    vertices: usize,
    indices: usize,
    up: Upload,
    b: usize,
)
    requires
        p0.wf(),
        p1.wf(),
        malloc_result(p0.store, p1.store, key, vertices, indices, up),
        p1 == p0.with_command(key, up.buffer, first, p1.store, p0.misses + 1),
        has_entry(p1.store, key, b),
    ensures
        p1.store.has_key(key),
        b == up.buffer,
        ({
            let p2 = p1.with_command(key, b, second, p1.store, p1.misses);
            &&& p2.store == p1.store
            &&& p2.misses == p1.misses
            &&& p2.commands.last().buffer == p1.commands.last().buffer
            &&& p2.commands.last().vertices == p1.commands.last().vertices
            &&& p2.commands.last().indices == p1.commands.last().indices
        }),
{
    lemma_cached_after_miss(p0.store, p1.store, key, vertices, indices, up);
    let last = p0.store.in_use.len() as int;
    assert(p1.store.in_use[last] == (key, up.buffer));
    let i = choose|i: int| 0 <= i < p1.store.in_use.len() && #[trigger] p1.store.in_use[i] == (key, b);
    if i < last {
        assert(p1.store.in_use[i].0 != p1.store.in_use[last].0);
    }
}

/// Cache round trip: the geometry of every key drawn in a frame is still cached after
/// the end-of-frame sweep, so drawing the key again in the next frame tessellates
/// nothing.
pub proof fn lemma_flush_keeps_drawn_keys<M, U>(p: PainterView<M, U>, swept: StoreView, i: int)
    requires
        p.wf(),
        0 <= i < p.commands.len(),
        swept.in_use == p.store.in_use.filter(kept_by(command_keys(p.commands))),
    ensures
        swept.has_key(p.commands[i].key),
{
    let c = p.commands[i];
    let pred = kept_by(command_keys(p.commands));
    let a = choose|a: int| 0 <= a < p.store.in_use.len() && #[trigger] p.store.in_use[a] == (c.key, c.buffer);
    assert(command_keys(p.commands)[i] == c.key);
    assert(pred(p.store.in_use[a]));
    p.store.in_use.lemma_filter_contains(pred, a);
    let f = p.store.in_use.filter(pred);
    let k = choose|k: int| 0 <= k < f.len() && f[k] == p.store.in_use[a];
    assert(swept.in_use[k].0 == c.key);
}

} // verus!
