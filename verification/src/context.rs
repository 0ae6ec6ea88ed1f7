//! Memory context for tensor allocation
//!
//! An arena: tensors are placed at aligned offsets inside large byte blocks
//! that the context owns. When the current block is full a growing context
//! appends a new block; a fixed-size one reports that it is out of memory.

use vstd::prelude::*;
use crate::tensor::{
    DataPtr, Tensor, TensorType, padded_shape, strides_fit, size_fits, spec_size_bytes, shape_count,
};

verus! {

/// Default memory alignment (32 bytes for SIMD)
pub const DEFAULT_ALIGNMENT: usize = 32;

/// Memory allocation errors
#[derive(Debug, Clone, Copy, PartialEq, Eq, Structural)]
pub enum ContextError {
    OutOfMemory { requested: usize, available: usize },
    InvalidAlignment(usize),
    AllocationFailed,
    InvalidDimensions,
}

/// Memory statistics for a context
#[derive(Debug, Clone, Copy, PartialEq, Eq, Structural)]
pub struct MemoryStats {
    /// Total memory allocated
    pub total_allocated: usize,
    /// Memory currently in use
    pub used: usize,
    /// Number of allocations
    pub num_allocations: usize,
    /// Peak memory usage
    pub peak_usage: usize,
}

impl MemoryStats {
    pub open spec fn spec_available(self) -> usize {
        if self.total_allocated >= self.used {
            (self.total_allocated - self.used) as usize
        } else {
            0
        }
    }

    /// Get available memory
    pub fn available(&self) -> (r: usize)
        ensures
            r == self.spec_available(),
    {
        self.total_allocated.saturating_sub(self.used)
    }
}

/// `a` is a power of two.
pub open spec fn is_pow2(a: usize) -> bool {
    a != 0 && a & ((a - 1) as usize) == 0
}

/// `offset` rounded up to a multiple of the power of two `align`.
pub open spec fn align_up(offset: usize, align: usize) -> usize {
    ((offset + align - 1) as usize) & !((align - 1) as usize)
}

/// A block of `size` bytes with alignment `align` has a valid layout.
pub open spec fn layout_ok(size: int, align: usize) -> bool {
    size <= isize::MAX - (align - 1)
}

pub proof fn lemma_align_up(x: usize, a: usize)
    requires
        is_pow2(a),
        x + a - 1 <= usize::MAX,
    ensures
        x <= align_up(x, a) <= x + a - 1,
        align_up(x, a) & ((a - 1) as usize) == 0,
{
    let y = (x + a - 1) as usize;
    let m = (a - 1) as usize;
    assert(y & !m <= y) by (bit_vector);
    assert((y & !m) & m == 0) by (bit_vector);
    assert(y - (y & !m) <= m) by (bit_vector)
        requires
            a != 0,
            a & m == 0,
            m == a - 1,
    ;
}

pub proof fn lemma_default_alignment()
    ensures
        is_pow2(DEFAULT_ALIGNMENT),
{
    assert(32usize & 31usize == 0) by (bit_vector);
}

/// The abstract state of a context.
pub struct ContextModel {
    pub blocks: Seq<Seq<u8>>,
    pub offset: usize,
    pub alignment: usize,
    pub stats: MemoryStats,
    pub allow_grow: bool,
    pub block_size: usize,
    pub next_id: usize,
}

impl ContextModel {
    pub open spec fn wf(self) -> bool {
        &&& 1 <= self.blocks.len() <= self.next_id
        &&& is_pow2(self.alignment)
        &&& forall|i: int|
            0 <= i < self.blocks.len() ==> layout_ok(#[trigger] self.blocks[i].len() as int, self.alignment)
        &&& self.offset <= self.blocks.last().len()
        &&& self.blocks.last().len() <= self.stats.total_allocated <= isize::MAX
        &&& self.stats.used + (self.blocks.last().len() - self.offset) <= self.stats.total_allocated
        &&& self.stats.used <= self.stats.peak_usage
        &&& self.stats.num_allocations < self.next_id
        &&& self.next_id >= 1
    }

    /// Room for the identity counters to advance by `k` allocations.
    pub open spec fn has_ids_for(self, k: int) -> bool {
        self.next_id + k <= usize::MAX
    }

    /// Outcome of placing `size` bytes: the new state and where they go.
    pub open spec fn place(self, size: usize) -> (ContextModel, Result<DataPtr, ContextError>) {
        let aligned = align_up(self.offset, self.alignment);
        let last = self.blocks.len() - 1;
        if aligned + size <= self.blocks.last().len() {
            let used = (self.stats.used + size) as usize;
            (
                ContextModel {
                    offset: (aligned + size) as usize,
                    stats: MemoryStats {
                        total_allocated: self.stats.total_allocated,
                        used,
                        num_allocations: (self.stats.num_allocations + 1) as usize,
                        peak_usage: if self.stats.peak_usage >= used {
                            self.stats.peak_usage
                        } else {
                            used
                        },
                    },
                    ..self
                },
                Ok(DataPtr { block: last as usize, offset: aligned }),
            )
        } else if !self.allow_grow {
            (
                self,
                Err(
                    ContextError::OutOfMemory {
                        requested: size,
                        available: self.stats.spec_available(),
                    },
                ),
            )
        } else {
            let nbs = if size >= self.block_size {
                size
            } else {
                self.block_size
            };
            if !layout_ok(nbs as int, self.alignment) || nbs + self.stats.total_allocated
                > isize::MAX {
                (self, Err(ContextError::AllocationFailed))
            } else {
                let used = (self.stats.used + size) as usize;
                (
                    ContextModel {
                        blocks: self.blocks.push(Seq::new(nbs as nat, |i: int| 0u8)),
                        offset: size,
                        stats: MemoryStats {
                            total_allocated: (self.stats.total_allocated + nbs) as usize,
                            used,
                            num_allocations: (self.stats.num_allocations + 1) as usize,
                            peak_usage: if self.stats.peak_usage >= used {
                                self.stats.peak_usage
                            } else {
                                used
                            },
                        },
                        ..self
                    },
                    Ok(DataPtr { block: self.blocks.len() as usize, offset: 0 }),
                )
            }
        }
    }

    /// A tensor of type `t` and padded shape `ne` can be described without
    /// arithmetic overflow in its strides, element count and byte size.
    pub open spec fn representable(t: TensorType, ne: Seq<usize>) -> bool {
        &&& strides_fit(t.spec_type_size() as int, ne)
        &&& size_fits(t, ne)
    }

    /// Outcome of creating a tensor: the new state, and the data location and
    /// identity of the tensor.
    pub open spec fn new_tensor(self, t: TensorType, ne: Seq<usize>) -> (
        ContextModel,
        Result<(DataPtr, usize), ContextError>,
    ) {
        if !Self::representable(t, ne) {
            (self, Err(ContextError::InvalidDimensions))
        } else {
            let (c, r) = self.place(spec_size_bytes(t, ne) as usize);
            match r {
                Ok(p) => (
                    ContextModel { next_id: (c.next_id + 1) as usize, ..c },
                    Ok((p, self.next_id)),
                ),
                Err(e) => (c, Err(e)),
            }
        }
    }
}

/// `r` is what `Context::new_tensor` returns when the context went from
/// `before` to `after` creating a tensor of type `t` and padded shape `ne`.
pub open spec fn new_tensor_result(
    before: ContextModel,
    after: ContextModel,
    t: TensorType,
    ne: Seq<usize>,
    r: Result<Tensor, ContextError>,
) -> bool {
    let (c, o) = before.new_tensor(t, ne);
    &&& after == c
    &&& match o {
        Ok((p, id)) => (r matches Ok(tensor) && tensor.is_fresh(t, ne) && tensor.data == Some(p)
            && tensor.id == id),
        Err(e) => r == Err::<Tensor, ContextError>(e),
    }
}

/// Memory context for tensor allocation
///
/// An arena allocator; all tensors created within a context share its blocks.
pub struct Context {
    /// Memory blocks
    blocks: Vec<Vec<u8>>,
    /// Current offset in the current (last) block
    offset: usize,
    /// Memory alignment
    alignment: usize,
    /// Memory statistics
    stats: MemoryStats,
    /// Whether to allow growing the context
    allow_grow: bool,
    /// Initial block size
    block_size: usize,
    /// Identity for the next tensor
    next_id: usize,
}

impl View for Context {
    type V = ContextModel;

    closed spec fn view(&self) -> ContextModel {
        ContextModel {
            blocks: self.blocks@.map_values(|b: Vec<u8>| b@),
            offset: self.offset,
            alignment: self.alignment,
            stats: self.stats,
            allow_grow: self.allow_grow,
            block_size: self.block_size,
            next_id: self.next_id,
        }
    }
}

/// A fresh zero-filled block, when the layout is valid.
fn new_block(size: usize, alignment: usize) -> (r: Result<Vec<u8>, ContextError>)
    ensures
        !is_pow2(alignment) ==> r == Err::<Vec<u8>, ContextError>(
            ContextError::InvalidAlignment(alignment),
        ),
        is_pow2(alignment) && !layout_ok(size as int, alignment) ==> r == Err::<
            Vec<u8>,
            ContextError,
        >(ContextError::AllocationFailed),
        is_pow2(alignment) && layout_ok(size as int, alignment) ==> (r matches Ok(b) && b@
            == Seq::new(size as nat, |i: int| 0u8)),
{
    if alignment == 0 || alignment & (alignment - 1) != 0 {
        return Err(ContextError::InvalidAlignment(alignment));
    }
    if size > isize::MAX as usize || alignment - 1 > isize::MAX as usize - size {
        return Err(ContextError::AllocationFailed);
    }
    let b = vec![0u8; size];
    assert(b@ =~= Seq::new(size as nat, |i: int| 0u8));
    Ok(b)
}

impl Context {
    /// Create a new context with the specified memory size
    pub fn new(size: usize) -> (r: Result<Self, ContextError>)
        ensures
            layout_ok(size as int, DEFAULT_ALIGNMENT) ==> (r matches Ok(c) && c@
                == ContextModel::initial(size, DEFAULT_ALIGNMENT)),
            !layout_ok(size as int, DEFAULT_ALIGNMENT) ==> r == Err::<Context, ContextError>(
                ContextError::AllocationFailed,
            ),
            (r matches Ok(c) ==> c@.wf()),
    {
        proof {
            lemma_default_alignment();
        }
        Self::with_alignment(size, DEFAULT_ALIGNMENT)
    }

    /// Create a new context with custom alignment
    pub fn with_alignment(size: usize, alignment: usize) -> (r: Result<Self, ContextError>)
        ensures
            !is_pow2(alignment) ==> r == Err::<Context, ContextError>(
                ContextError::InvalidAlignment(alignment),
            ),
            is_pow2(alignment) && !layout_ok(size as int, alignment) ==> r == Err::<
                Context,
                ContextError,
            >(ContextError::AllocationFailed),
            is_pow2(alignment) && layout_ok(size as int, alignment) ==> (r matches Ok(c) && c@
                == ContextModel::initial(size, alignment)),
            (r matches Ok(c) ==> c@.wf()),
    {
        let block = new_block(size, alignment)?;
        let c = Context {
            blocks: vec![block],
            offset: 0,
            alignment,
            stats: MemoryStats { total_allocated: size, used: 0, num_allocations: 0, peak_usage: 0 },
            allow_grow: true,
            block_size: size,
            next_id: 1,
        };
        assert(c@.blocks =~= seq![Seq::new(size as nat, |i: int| 0u8)]);
        Ok(c)
    }

    /// Create a context that doesn't allow growing
    pub fn with_fixed_size(size: usize) -> (r: Result<Self, ContextError>)
        ensures
            layout_ok(size as int, DEFAULT_ALIGNMENT) ==> (r matches Ok(c) && c@
                == ContextModel::initial(size, DEFAULT_ALIGNMENT).fixed()),
            !layout_ok(size as int, DEFAULT_ALIGNMENT) ==> r == Err::<Context, ContextError>(
                ContextError::AllocationFailed,
            ),
            (r matches Ok(c) ==> c@.wf()),
    {
        let mut ctx = Self::new(size)?;
        ctx.allow_grow = false;
        Ok(ctx)
    }

    /// Get memory statistics
    pub fn stats(&self) -> (r: MemoryStats)
        ensures
            r == self@.stats,
    {
        self.stats
    }

    /// Reset the context (free all allocations but keep memory)
    pub fn reset(&mut self)
        requires
            old(self)@.wf(),
        ensures
            final(self)@ == old(self)@.after_reset(),
            final(self)@ == old(self)@.step(ContextCall::Reset),
            final(self)@.wf(),
    {
        self.offset = 0;
        self.stats.used = 0;
        self.stats.num_allocations = 0;
    }

    /// Get the total memory allocated
    pub fn total_size(&self) -> (r: usize)
        ensures
            r == self@.stats.total_allocated,
    {
        self.stats.total_allocated
    }

    /// Get the memory currently in use
    pub fn used_size(&self) -> (r: usize)
        ensures
            r == self@.stats.used,
    {
        self.stats.used
    }

    /// Get the available memory
    pub fn available_size(&self) -> (r: usize)
        ensures
            r == self@.stats.spec_available(),
    {
        self.stats.available()
    }

    /// The alignment of every allocation offset within a block
    pub fn alignment(&self) -> (r: usize)
        ensures
            r == self@.alignment,
    {
        self.alignment
    }
}

impl ContextModel {
    pub open spec fn fixed(self) -> ContextModel {
        ContextModel { allow_grow: false, ..self }
    }

    pub open spec fn after_reset(self) -> ContextModel {
        ContextModel {
            offset: 0,
            stats: MemoryStats { used: 0, num_allocations: 0, ..self.stats },
            ..self
        }
    }

    pub open spec fn initial(size: usize, alignment: usize) -> ContextModel {
        ContextModel {
            blocks: seq![Seq::new(size as nat, |i: int| 0u8)],
            offset: 0,
            alignment,
            stats: MemoryStats { total_allocated: size, used: 0, num_allocations: 0, peak_usage: 0 },
            allow_grow: true,
            block_size: size,
            next_id: 1,
        }
    }
}

impl ContextModel {
    /// The bytes at `p` of length `len` lie inside a block.
    pub open spec fn region_ok(self, p: DataPtr, len: int) -> bool {
        &&& p.block < self.blocks.len()
        &&& p.offset + len <= self.blocks[p.block as int].len()
    }

    /// The `len` bytes stored at `p`.
    pub open spec fn read(self, p: DataPtr, len: int) -> Seq<u8> {
        self.blocks[p.block as int].subrange(p.offset as int, p.offset + len)
    }

    /// The state after storing `bytes` at `p`.
    pub open spec fn write(self, p: DataPtr, bytes: Seq<u8>) -> ContextModel {
        let b = self.blocks[p.block as int];
        ContextModel {
            blocks: self.blocks.update(
                p.block as int,
                b.take(p.offset as int) + bytes + b.skip(p.offset + bytes.len()),
            ),
            ..self
        }
    }

    /// The storage of `t`, when it has storage of its full byte size in this context.
    pub open spec fn tensor_region(self, t: Tensor) -> Option<(DataPtr, int)> {
        if t.data is Some && ContextModel::representable(t.tensor_type, t.ne@) && self.region_ok(
            t.data->0,
            spec_size_bytes(t.tensor_type, t.ne@),
        ) {
            Some((t.data->0, spec_size_bytes(t.tensor_type, t.ne@)))
        } else {
            None
        }
    }
}

/// The first four entries of `shape`, padded with ones.
pub fn pad_shape(shape: &[usize]) -> (r: [usize; 4])
    requires
        shape@.len() <= 4,
    ensures
        r@ == padded_shape(shape@),
{
    let len = shape.len();
    let d0 = if len > 0 { shape[0] } else { 1 };
    let d1 = if len > 1 { shape[1] } else { 1 };
    let d2 = if len > 2 { shape[2] } else { 1 };
    let d3 = if len > 3 { shape[3] } else { 1 };
    let r = [d0, d1, d2, d3];
    assert(r@ =~= padded_shape(shape@));
    r
}

/// Decides `ContextModel::representable` by checked arithmetic.
pub fn representable(t: TensorType, ne: &[usize; 4]) -> (r: bool)
    ensures
        r == ContextModel::representable(t, ne@),
{
    let ts = t.type_size();
    let p1 = match ts.checked_mul(ne[0]) {
        Some(v) => v,
        None => return false,
    };
    let p2 = match p1.checked_mul(ne[1]) {
        Some(v) => v,
        None => return false,
    };
    if p2.checked_mul(ne[2]).is_none() {
        return false;
    }
    let c1 = match ne[0].checked_mul(ne[1]) {
        Some(v) => v,
        None => return false,
    };
    let c2 = match c1.checked_mul(ne[2]) {
        Some(v) => v,
        None => return false,
    };
    let count = match c2.checked_mul(ne[3]) {
        Some(v) => v,
        None => return false,
    };
    assert(count == shape_count(ne@));
    if t.is_quantized() {
        let bs = t.block_size();
        let sum = match count.checked_add(bs) {
            Some(v) => v,
            None => return false,
        };
        let n_blocks = (sum - 1) / bs;
        n_blocks.checked_mul(t.bytes_per_block()).is_some()
    } else {
        count.checked_mul(t.element_size()).is_some()
    }
}

/// Placing a tensor keeps the state well formed once the identity counter advances.
proof fn lemma_place_wf(m: ContextModel, size: usize)
    requires
        m.wf(),
        m.has_ids_for(1),
    ensures
        ({
            let (c, r) = m.place(size);
            &&& r is Err ==> c == m
            &&& r is Ok ==> (ContextModel { next_id: (c.next_id + 1) as usize, ..c }).wf()
            &&& r matches Ok(p) ==> c.region_ok(p, size as int)
                && p.offset & ((m.alignment - 1) as usize) == 0
        }),
{
    lemma_align_up(m.offset, m.alignment);
    let (c, r) = m.place(size);
    if r is Ok {
        let c2 = ContextModel { next_id: (c.next_id + 1) as usize, ..c };
        assert forall|i: int| 0 <= i < c2.blocks.len() implies layout_ok(
            #[trigger] c2.blocks[i].len() as int,
            c2.alignment,
        ) by {
            if i < m.blocks.len() {
                assert(c2.blocks[i] == m.blocks[i]);
            }
        }
        let mask = (m.alignment - 1) as usize;
        assert(0usize & mask == 0) by (bit_vector);
        assert(c2.wf());
        let aligned = align_up(m.offset, m.alignment);
        if aligned + size <= m.blocks.last().len() {
            assert(c.blocks == m.blocks);
            assert(c.region_ok(r->Ok_0, size as int));
        } else {
            assert(c.blocks[m.blocks.len() as int].len() >= size);
            assert(c.region_ok(r->Ok_0, size as int));
        }
    }
}

impl Context {
    /// Allocate memory with alignment
    fn allocate_aligned(&mut self, size: usize, align: usize) -> (r: Result<DataPtr, ContextError>)
        requires
            old(self)@.wf(),
            align == old(self)@.alignment,
        ensures
            (final(self)@, r) == old(self)@.place(size),
    {
        proof {
            lemma_align_up(self.offset, align);
        }
        // Align the current offset
        let aligned_offset = (self.offset + align - 1) & !(align - 1);
        let last = self.blocks.len() - 1;
        let cur_size = self.blocks[last].len();
        assert(self@.blocks.last() == self.blocks@[last as int]@);

        // Check if we have space in the current block
        if size <= cur_size && aligned_offset <= cur_size - size {
            let end_offset = aligned_offset + size;
            self.offset = end_offset;
            self.stats.used = self.stats.used + size;
            self.stats.num_allocations = self.stats.num_allocations + 1;
            if self.stats.peak_usage < self.stats.used {
                self.stats.peak_usage = self.stats.used;
            }
            return Ok(DataPtr { block: last, offset: aligned_offset });
        }
        // Need a new block

        if !self.allow_grow {
            return Err(
                ContextError::OutOfMemory { requested: size, available: self.stats.available() },
            );
        }
        // Allocate a new block (at least as large as requested)

        let new_block_size = if size >= self.block_size {
            size
        } else {
            self.block_size
        };
        if new_block_size > isize::MAX as usize - self.stats.total_allocated {
            // the address space cannot hold the blocks already owned and this one
            return Err(ContextError::AllocationFailed);
        }
        let block = new_block(new_block_size, self.alignment)?;
        let ghost old_blocks = self@.blocks;
        let index = self.blocks.len();
        self.blocks.push(block);
        assert(self@.blocks =~= old_blocks.push(Seq::new(new_block_size as nat, |i: int| 0u8)));
        self.stats.total_allocated = self.stats.total_allocated + new_block_size;
        self.stats.used = self.stats.used + size;
        self.stats.num_allocations = self.stats.num_allocations + 1;
        if self.stats.peak_usage < self.stats.used {
            self.stats.peak_usage = self.stats.used;
        }
        self.offset = size;
        Ok(DataPtr { block: index, offset: 0 })
    }

    /// Create a new tensor in this context
    pub fn new_tensor(&mut self, tensor_type: TensorType, shape: &[usize]) -> (r: Result<
        Tensor,
        ContextError,
    >)
        requires
            old(self)@.wf(),
            old(self)@.has_ids_for(1),
            shape@.len() <= 4,
        ensures
            final(self)@.wf(),
            new_tensor_result(old(self)@, final(self)@, tensor_type, padded_shape(shape@), r),
            final(self)@ == old(self)@.step(ContextCall::NewTensor(tensor_type, padded_shape(shape@))),
            r matches Ok(t) ==> final(self)@.tensor_region(t) == Some(
                (t.data->0, spec_size_bytes(tensor_type, padded_shape(shape@))),
            ),
            r matches Ok(t) ==> t.data->0.offset & ((old(self)@.alignment - 1) as usize) == 0,
    {
        let ne = pad_shape(shape);
        if !representable(tensor_type, &ne) {
            return Err(ContextError::InvalidDimensions);
        }
        let mut tensor = Tensor::new(tensor_type, shape);

        // Allocate memory for the tensor
        let size = tensor.size_bytes();
        let align = self.alignment;
        proof {
            lemma_place_wf(self@, size);
        }
        let ptr = self.allocate_aligned(size, align)?;
        tensor.set_data(ptr);
        tensor.id = self.next_id;
        self.next_id = self.next_id + 1;
        Ok(tensor)
    }
}

impl Context {
    /// Create a 1D tensor (vector)
    pub fn new_tensor_1d(&mut self, tensor_type: TensorType, ne0: usize) -> (r: Result<
        Tensor,
        ContextError,
    >)
        requires
            old(self)@.wf(),
            old(self)@.has_ids_for(1),
        ensures
            final(self)@.wf(),
            new_tensor_result(old(self)@, final(self)@, tensor_type, padded_shape(seq![ne0]), r),
            final(self)@ == old(self)@.step(ContextCall::NewTensor(tensor_type, padded_shape(seq![ne0]))),
    {
        let shape = [ne0];
        assert(shape@ =~= seq![ne0]);
        self.new_tensor(tensor_type, &shape)
    }

    /// Create a 2D tensor (matrix)
    pub fn new_tensor_2d(&mut self, tensor_type: TensorType, ne0: usize, ne1: usize) -> (r: Result<
        Tensor,
        ContextError,
    >)
        requires
            old(self)@.wf(),
            old(self)@.has_ids_for(1),
        ensures
            final(self)@.wf(),
            new_tensor_result(
                old(self)@,
                final(self)@,
                tensor_type,
                padded_shape(seq![ne0, ne1]),
                r,
            ),
            final(self)@ == old(self)@.step(
                ContextCall::NewTensor(tensor_type, padded_shape(seq![ne0, ne1])),
            ),
    {
        let shape = [ne0, ne1];
        assert(shape@ =~= seq![ne0, ne1]);
        self.new_tensor(tensor_type, &shape)
    }

    /// Create a 3D tensor
    pub fn new_tensor_3d(
        &mut self,
        tensor_type: TensorType,
        ne0: usize,
        ne1: usize,
        ne2: usize,
    ) -> (r: Result<Tensor, ContextError>)
        requires
            old(self)@.wf(),
            old(self)@.has_ids_for(1),
        ensures
            final(self)@.wf(),
            new_tensor_result(
                old(self)@,
                final(self)@,
                tensor_type,
                padded_shape(seq![ne0, ne1, ne2]),
                r,
            ),
            final(self)@ == old(self)@.step(
                ContextCall::NewTensor(tensor_type, padded_shape(seq![ne0, ne1, ne2])),
            ),
    {
        let shape = [ne0, ne1, ne2];
        assert(shape@ =~= seq![ne0, ne1, ne2]);
        self.new_tensor(tensor_type, &shape)
    }

    /// Create a 4D tensor
    pub fn new_tensor_4d(
        &mut self,
        tensor_type: TensorType,
        ne0: usize,
        ne1: usize,
        ne2: usize,
        ne3: usize,
    ) -> (r: Result<Tensor, ContextError>)
        requires
            old(self)@.wf(),
            old(self)@.has_ids_for(1),
        ensures
            final(self)@.wf(),
            new_tensor_result(
                old(self)@,
                final(self)@,
                tensor_type,
                padded_shape(seq![ne0, ne1, ne2, ne3]),
                r,
            ),
            final(self)@ == old(self)@.step(
                ContextCall::NewTensor(tensor_type, padded_shape(seq![ne0, ne1, ne2, ne3])),
            ),
    {
        let shape = [ne0, ne1, ne2, ne3];
        assert(shape@ =~= seq![ne0, ne1, ne2, ne3]);
        self.new_tensor(tensor_type, &shape)
    }

    /// Where the bytes of `tensor` lie in this context, when they lie in it.
    fn region_of(&self, tensor: &Tensor) -> (r: Option<(DataPtr, usize)>)
        requires
            self@.wf(),
        ensures
            r matches Some((p, n)) ==> self@.tensor_region(*tensor) == Some((p, n as int)),
            r is None ==> self@.tensor_region(*tensor) is None,
    {
        let p = match tensor.data {
            Some(p) => p,
            None => return None,
        };
        if !representable(tensor.tensor_type, &tensor.ne) {
            return None;
        }
        let size = tensor.size_bytes();
        if p.block >= self.blocks.len() {
            return None;
        }
        let block_len = self.blocks[p.block].len();
        assert(self@.blocks[p.block as int].len() == block_len);
        if size > block_len || p.offset > block_len - size {
            return None;
        }
        Some((p, size))
    }

    /// Store the bytes of a tensor's data
    ///
    /// Fails with `InvalidDimensions` when the tensor has no storage of its
    /// full size in this context or `data` is not exactly that size.
    pub fn set_tensor_data_bytes(&mut self, tensor: &Tensor, data: &[u8]) -> (r: Result<
        (),
        ContextError,
    >)
        requires
            old(self)@.wf(),
        ensures
            final(self)@.wf(),
            match old(self)@.tensor_region(*tensor) {
                Some((p, n)) => if data@.len() == n {
                    r is Ok && final(self)@ == old(self)@.write(p, data@)
                } else {
                    r == Err::<(), ContextError>(ContextError::InvalidDimensions) && final(self)@
                        == old(self)@
                },
                None => r == Err::<(), ContextError>(ContextError::InvalidDimensions)
                    && final(self)@ == old(self)@,
            },
    {
        let (p, size) = match self.region_of(tensor) {
            Some(x) => x,
            None => return Err(ContextError::InvalidDimensions),
        };
        if data.len() != size {
            return Err(ContextError::InvalidDimensions);
        }
        let ghost m0 = self@;
        let b = p.block;
        let mut i: usize = 0;
        assert(m0.blocks[b as int].take(p.offset as int) + data@.take(0) + m0.blocks[b as int].skip(
            p.offset as int,
        ) =~= m0.blocks[b as int]);
        assert(m0.blocks.update(b as int, m0.blocks[b as int]) =~= m0.blocks);
        while i < size
            invariant
                b == p.block,
                m0.region_ok(p, size as int),
                m0.wf(),
                data@.len() == size,
                i <= size,
                self@ == (ContextModel {
                    blocks: m0.blocks.update(
                        b as int,
                        m0.blocks[b as int].take(p.offset as int) + data@.take(i as int)
                            + m0.blocks[b as int].skip(p.offset + i),
                    ),
                    ..m0
                }),
            decreases size - i,
        {
            assert(self@.blocks.len() == self.blocks@.len());
            assert(b < self.blocks@.len());
            assert(self@.blocks[b as int] == self.blocks@[b as int]@);
            assert(self.blocks@[b as int]@.len() == m0.blocks[b as int].len());
            let ghost cur = self.blocks@[b as int]@;
            let ghost others = self.blocks@;
            let ghost prev = self@;
            self.blocks[b][p.offset + i] = data[i];
            assert(self.blocks@[b as int]@ == cur.update(p.offset + i, data@[i as int]));
            assert(cur.update(p.offset + i, data@[i as int]) =~= m0.blocks[b as int].take(
                p.offset as int,
            ) + data@.take(i + 1) + m0.blocks[b as int].skip(p.offset + i + 1));
            assert forall|j: int| 0 <= j < self@.blocks.len() && j != b implies self@.blocks[j]
                == m0.blocks[j] by {
                assert(self.blocks@[j] == others[j]);
                assert(prev.blocks[j] == others[j]@);
            }
            assert(self@.blocks =~= m0.blocks.update(
                b as int,
                m0.blocks[b as int].take(p.offset as int) + data@.take(i + 1)
                    + m0.blocks[b as int].skip(p.offset + i + 1),
            ));
            i = i + 1;
        }
        assert(data@.take(size as int) =~= data@);
        assert(self@ == m0.write(p, data@));
        Ok(())
    }

    /// The bytes of a tensor's data
    ///
    /// Fails with `InvalidDimensions` when the tensor has no storage of its
    /// full size in this context.
    pub fn get_tensor_data_bytes(&self, tensor: &Tensor) -> (r: Result<&[u8], ContextError>)
        requires
            self@.wf(),
        ensures
            match self@.tensor_region(*tensor) {
                Some((p, n)) => r matches Ok(s) && s@ == self@.read(p, n),
                None => r == Err::<&[u8], ContextError>(ContextError::InvalidDimensions),
            },
    {
        let (p, size) = match self.region_of(tensor) {
            Some(x) => x,
            None => return Err(ContextError::InvalidDimensions),
        };
        let block = self.blocks[p.block].as_slice();
        Ok(vstd::slice::slice_subrange(block, p.offset, p.offset + size))
    }
}

/// Reading a tensor's storage after writing it gives back the bytes written.
pub proof fn lemma_read_after_write(m: ContextModel, p: DataPtr, bytes: Seq<u8>)
    requires
        m.region_ok(p, bytes.len() as int),
    ensures
        m.write(p, bytes).read(p, bytes.len() as int) == bytes,
        m.write(p, bytes).region_ok(p, bytes.len() as int),
{
    let b = m.blocks[p.block as int];
    let nb = b.take(p.offset as int) + bytes + b.skip(p.offset + bytes.len());
    assert(nb.subrange(p.offset as int, p.offset + bytes.len()) =~= bytes);
}


/// The `n` bytes at `p` and the `k` bytes at `q` do not overlap.
pub open spec fn disjoint(p: DataPtr, n: int, q: DataPtr, k: int) -> bool {
    p.block != q.block || p.offset + n <= q.offset || q.offset + k <= p.offset
}

/// Writing one region leaves every region apart from it as it was.
pub proof fn lemma_write_elsewhere(m: ContextModel, p: DataPtr, bytes: Seq<u8>, q: DataPtr, k: int)
    requires
        m.region_ok(p, bytes.len() as int),
        m.region_ok(q, k),
        0 <= k,
        disjoint(p, bytes.len() as int, q, k),
    ensures
        m.write(p, bytes).read(q, k) == m.read(q, k),
{
    let b = m.blocks[p.block as int];
    let nb = b.take(p.offset as int) + bytes + b.skip(p.offset + bytes.len());
    if p.block == q.block {
        assert(nb.subrange(q.offset as int, q.offset + k) =~= b.subrange(q.offset as int, q.offset + k));
    }
}

/// A new tensor's storage is apart from every region in use before it:
/// from an earlier block, or below the fill offset of the last one.
pub proof fn lemma_new_storage_is_fresh(m: ContextModel, t: TensorType, ne: Seq<usize>, q: DataPtr, k: int)
    requires
        m.wf(),
        0 <= k,
        q.block < m.blocks.len() - 1 || (q.block == m.blocks.len() - 1 && q.offset + k <= m.offset),
        m.new_tensor(t, ne).1 is Ok,
    ensures
        disjoint(m.new_tensor(t, ne).1->Ok_0.0, spec_size_bytes(t, ne), q, k),
{
    let size = spec_size_bytes(t, ne) as usize;
    assert(ContextModel::representable(t, ne));
    lemma_align_up(m.offset, m.alignment);
}

/// A call that changes a context's allocation state.
pub enum ContextCall {
    /// Create a tensor of the given type and padded shape.
    NewTensor(TensorType, Seq<usize>),
    /// Free every allocation.
    Reset,
}

impl ContextModel {
    /// The state after one call.
    pub open spec fn step(self, call: ContextCall) -> ContextModel {
        match call {
            ContextCall::NewTensor(t, ne) => self.new_tensor(t, ne).0,
            ContextCall::Reset => self.after_reset(),
        }
    }

    /// The state after the calls, in order.
    pub open spec fn run(self, calls: Seq<ContextCall>) -> ContextModel
        decreases calls.len(),
    {
        if calls.len() == 0 {
            self
        } else {
            self.run(calls.drop_last()).step(calls.last())
        }
    }
}

/// In a well-formed context the memory in use stays within the memory
/// allocated, the peak usage is never below it, and what is available is
/// the difference.
pub proof fn lemma_stats_bounds(m: ContextModel)
    requires
        m.wf(),
    ensures
        m.stats.used <= m.stats.total_allocated,
        m.stats.used <= m.stats.peak_usage,
        m.stats.spec_available() == m.stats.total_allocated - m.stats.used,
{
}

/// Creating tensors and resetting keep a context well formed, so the
/// statistics bounds hold after every sequence of calls (while the tensor
/// identity counter has room).
pub proof fn lemma_calls_keep_context_wf(m: ContextModel, calls: Seq<ContextCall>)
    requires
        m.wf(),
        m.has_ids_for(calls.len() as int),
    ensures
        m.run(calls).wf(),
        m.run(calls).next_id <= m.next_id + calls.len(),
        m.run(calls).stats.used <= m.run(calls).stats.total_allocated,
        m.run(calls).stats.used <= m.run(calls).stats.peak_usage,
    decreases calls.len(),
{
    if calls.len() > 0 {
        let prefix = calls.drop_last();
        lemma_calls_keep_context_wf(m, prefix);
        let c = m.run(prefix);
        match calls.last() {
            ContextCall::NewTensor(t, ne) => {
                if ContextModel::representable(t, ne) {
                    lemma_place_wf(c, spec_size_bytes(t, ne) as usize);
                }
            },
            ContextCall::Reset => {},
        }
    }
}

/// A context that may not grow keeps its allocated size and its fixed-size
/// setting through every call.
pub proof fn lemma_fixed_context_keeps_its_size(m: ContextModel, calls: Seq<ContextCall>)
    requires
        !m.allow_grow,
    ensures
        m.run(calls).stats.total_allocated == m.stats.total_allocated,
        !m.run(calls).allow_grow,
        m.run(calls).blocks.len() == m.blocks.len(),
    decreases calls.len(),
{
    if calls.len() > 0 {
        lemma_fixed_context_keeps_its_size(m, calls.drop_last());
    }
}

/// A context made with `with_fixed_size(size)` has exactly `size` bytes
/// allocated at every point of any sequence of tensor creations and resets
/// (each `new_tensor*` call and `reset` states its effect as a `step`).
pub proof fn lemma_fixed_context_never_grows(size: usize, calls: Seq<ContextCall>)
    ensures
        forall|k: int|
            0 <= k <= calls.len() ==> #[trigger] ContextModel::initial(size, DEFAULT_ALIGNMENT).fixed().run(
                calls.take(k),
            ).stats.total_allocated == size,
{
    let m = ContextModel::initial(size, DEFAULT_ALIGNMENT).fixed();
    assert forall|k: int| 0 <= k <= calls.len() implies #[trigger] m.run(
        calls.take(k),
    ).stats.total_allocated == size by {
        lemma_fixed_context_keeps_its_size(m, calls.take(k));
    }
}

/// In a context that may not grow, a tensor whose aligned end lies past the
/// last block is refused as out of memory, naming its byte size, and the
/// context is left as it was.
pub proof fn lemma_fixed_context_out_of_memory(m: ContextModel, t: TensorType, ne: Seq<usize>)
    requires
        !m.allow_grow,
        ContextModel::representable(t, ne),
        align_up(m.offset, m.alignment) + spec_size_bytes(t, ne) > m.blocks.last().len(),
    ensures
        m.new_tensor(t, ne) == (
            m,
            Err::<(DataPtr, usize), ContextError>(
                ContextError::OutOfMemory {
                    requested: spec_size_bytes(t, ne) as usize,
                    available: m.stats.spec_available(),
                },
            ),
        ),
{
}

/// Creating a tensor of `size` bytes in a well-formed context: on success
/// the memory in use grows by exactly `size`, one more allocation is
/// counted, the tensor gets the next identity, and its data starts at an
/// offset whose bits below the (power of two) alignment are zero, inside
/// the last block. When
/// the aligned tensor fits in the current block it is placed there, at the
/// current offset rounded up to the alignment, and nothing new is
/// allocated. Only a context that may not grow reports running out of memory.
pub proof fn lemma_new_tensor_accounting(m: ContextModel, t: TensorType, ne: Seq<usize>)
    requires
        m.wf(),
        m.has_ids_for(1),
        ContextModel::representable(t, ne),
    ensures
        ({
            let size = spec_size_bytes(t, ne);
            let (c, r) = m.new_tensor(t, ne);
            &&& r matches Ok((p, id)) ==> {
                &&& c.stats.used == m.stats.used + size
                &&& c.stats.num_allocations == m.stats.num_allocations + 1
                &&& id == m.next_id
                &&& c.next_id == m.next_id + 1
                &&& p.offset & ((m.alignment - 1) as usize) == 0
                &&& p.block == c.blocks.len() - 1
                &&& p.offset + size <= c.blocks[p.block as int].len()
            }
            &&& align_up(m.offset, m.alignment) + size <= m.blocks.last().len() ==> {
                &&& r matches Ok((p, _))
                &&& p.block == m.blocks.len() - 1
                &&& p.offset == align_up(m.offset, m.alignment)
                &&& c.stats.total_allocated == m.stats.total_allocated
                &&& c.blocks == m.blocks
            }
            &&& r matches Err(ContextError::OutOfMemory { .. }) ==> !m.allow_grow
        }),
{
    let size = spec_size_bytes(t, ne) as usize;
    lemma_place_wf(m, size);
    lemma_align_up(m.offset, m.alignment);
}

} // verus!
