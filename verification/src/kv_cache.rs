//! KV Cache for efficient autoregressive generation
//!
//! Stores key and value vectors from previous tokens to avoid recomputation.
//! The cache only moves the stored values around, so it is generic over
//! their type.

use vstd::prelude::*;

verus! {

/// Why a store into the cache was refused
#[derive(Debug, Clone, Copy, PartialEq, Eq, Structural)]
pub enum KVCacheError {
    LayerOutOfBounds,
    PositionOutOfBounds,
    SizeMismatch,
}

pub open spec fn kv_error_text(e: KVCacheError) -> Seq<char> {
    match e {
        KVCacheError::LayerOutOfBounds => "Layer index out of bounds"@,
        KVCacheError::PositionOutOfBounds => "Position out of bounds"@,
        KVCacheError::SizeMismatch => "Key/value size mismatch"@,
    }
}

impl KVCacheError {
    /// The error message
    pub fn message(&self) -> (r: String)
        ensures
            r@ == kv_error_text(*self),
    {
        match self {
            KVCacheError::LayerOutOfBounds => String::from_str("Layer index out of bounds"),
            KVCacheError::PositionOutOfBounds => String::from_str("Position out of bounds"),
            KVCacheError::SizeMismatch => String::from_str("Key/value size mismatch"),
        }
    }
}

/// `row` with `k` written over it from position `off` on.
pub open spec fn written<T>(row: Seq<T>, off: int, k: Seq<T>) -> Seq<T> {
    row.take(off) + k + row.skip(off + k.len())
}

/// KV cache for storing attention keys and values
pub struct KVCache<T> {
    /// Cached keys for each layer: [n_layer][n_embd_kv * n_ctx]
    pub k_cache: Vec<Vec<T>>,
    /// Cached values for each layer: [n_layer][n_embd_kv * n_ctx]
    pub v_cache: Vec<Vec<T>>,
    /// Maximum context length
    pub n_ctx: usize,
    /// Number of layers
    pub n_layer: usize,
    /// KV embedding dimension (n_head_kv * head_dim)
    pub n_embd_kv: usize,
}

impl<T> KVCache<T> {
    /// One key row and one value row per layer, each with room for `n_ctx`
    /// positions of `n_embd_kv` entries.
    pub open spec fn wf(&self) -> bool {
        &&& self.n_embd_kv * self.n_ctx <= usize::MAX
        &&& self.k_cache@.len() == self.n_layer
        &&& self.v_cache@.len() == self.n_layer
        &&& forall|l: int|
            0 <= l < self.n_layer ==> (#[trigger] self.k_cache@[l])@.len() == self.n_embd_kv * self.n_ctx
        &&& forall|l: int|
            0 <= l < self.n_layer ==> (#[trigger] self.v_cache@[l])@.len() == self.n_embd_kv * self.n_ctx
    }

    /// Key row of layer `l`
    pub open spec fn keys(&self, l: int) -> Seq<T> {
        self.k_cache@[l]@
    }

    /// Value row of layer `l`
    pub open spec fn values(&self, l: int) -> Seq<T> {
        self.v_cache@[l]@
    }
}

impl<T: Copy> KVCache<T> {
    /// Create a new KV cache with every entry set to `fill`
    pub fn new(n_layer: usize, n_embd_kv: usize, n_ctx: usize, fill: T) -> (r: Self)
        requires
            n_embd_kv * n_ctx <= usize::MAX,
        ensures
            r.wf(),
            r.n_layer == n_layer,
            r.n_embd_kv == n_embd_kv,
            r.n_ctx == n_ctx,
            forall|l: int, i: int|
                0 <= l < n_layer && 0 <= i < n_embd_kv * n_ctx ==> #[trigger] r.keys(l)[i] == fill
                    && r.values(l)[i] == fill,
    {
        let cache_size = n_embd_kv * n_ctx;
        let mut k_cache: Vec<Vec<T>> = Vec::new();
        let mut v_cache: Vec<Vec<T>> = Vec::new();
        let mut l: usize = 0;
        while l < n_layer
            invariant
                l <= n_layer,
                cache_size == n_embd_kv * n_ctx,
                k_cache@.len() == l,
                v_cache@.len() == l,
                forall|j: int|
                    0 <= j < l ==> (#[trigger] k_cache@[j])@.len() == cache_size && forall|i: int|
                        0 <= i < cache_size ==> #[trigger] k_cache@[j]@[i] == fill,
                forall|j: int|
                    0 <= j < l ==> (#[trigger] v_cache@[j])@.len() == cache_size && forall|i: int|
                        0 <= i < cache_size ==> #[trigger] v_cache@[j]@[i] == fill,
            decreases n_layer - l,
        {
            k_cache.push(filled(fill, cache_size));
            v_cache.push(filled(fill, cache_size));
            l = l + 1;
        }
        Self { k_cache, v_cache, n_ctx, n_layer, n_embd_kv }
    }

    /// Store key and value for a specific layer and position
    pub fn store(&mut self, layer: usize, pos: usize, k: &[T], v: &[T]) -> (r: Result<(), KVCacheError>)
        requires
            old(self).wf(),
        ensures
            final(self).wf(),
            final(self).n_layer == old(self).n_layer,
            final(self).n_ctx == old(self).n_ctx,
            final(self).n_embd_kv == old(self).n_embd_kv,
            r == (if layer >= old(self).n_layer {
                Err(KVCacheError::LayerOutOfBounds)
            } else if pos >= old(self).n_ctx {
                Err(KVCacheError::PositionOutOfBounds)
            } else if k@.len() != old(self).n_embd_kv || v@.len() != old(self).n_embd_kv {
                Err(KVCacheError::SizeMismatch)
            } else {
                Ok::<(), KVCacheError>(())
            }),
            r is Err ==> final(self).k_cache@ == old(self).k_cache@ && final(self).v_cache@ == old(
                self,
            ).v_cache@,
            r is Ok ==> forall|l: int|
                0 <= l < old(self).n_layer ==> #[trigger] final(self).keys(l) == if l == layer {
                    written(old(self).keys(l), pos * old(self).n_embd_kv, k@)
                } else {
                    old(self).keys(l)
                },
            r is Ok ==> forall|l: int|
                0 <= l < old(self).n_layer ==> #[trigger] final(self).values(l) == if l == layer {
                    written(old(self).values(l), pos * old(self).n_embd_kv, v@)
                } else {
                    old(self).values(l)
                },
    {
        if layer >= self.n_layer {
            return Err(KVCacheError::LayerOutOfBounds);
        }
        if pos >= self.n_ctx {
            return Err(KVCacheError::PositionOutOfBounds);
        }
        if k.len() != self.n_embd_kv || v.len() != self.n_embd_kv {
            return Err(KVCacheError::SizeMismatch);
        }
        // Store in cache at position
        proof {
            assert(pos * self.n_embd_kv + self.n_embd_kv <= self.n_embd_kv * self.n_ctx) by (nonlinear_arith)
                requires
                    pos < self.n_ctx,
            ;
        }
        let offset = pos * self.n_embd_kv;
        let n = self.n_embd_kv;
        let mut krow: Vec<T> = Vec::new();
        let mut vrow: Vec<T> = Vec::new();
        std::mem::swap(&mut krow, &mut self.k_cache[layer]);
        std::mem::swap(&mut vrow, &mut self.v_cache[layer]);
        write_at(&mut krow, offset, k);
        write_at(&mut vrow, offset, v);
        self.k_cache.set(layer, krow);
        self.v_cache.set(layer, vrow);
        Ok(())
    }

    /// Get all keys up to current position for a layer
    pub fn get_keys(&self, layer: usize, n_tokens: usize) -> (r: &[T])
        requires
            self.wf(),
            layer < self.n_layer,
            n_tokens * self.n_embd_kv <= self.n_embd_kv * self.n_ctx,
        ensures
            r@ == self.keys(layer as int).take(n_tokens * self.n_embd_kv),
    {
        let end = n_tokens * self.n_embd_kv;
        vstd::slice::slice_subrange(self.k_cache[layer].as_slice(), 0, end)
    }

    /// Get all values up to current position for a layer
    pub fn get_values(&self, layer: usize, n_tokens: usize) -> (r: &[T])
        requires
            self.wf(),
            layer < self.n_layer,
            n_tokens * self.n_embd_kv <= self.n_embd_kv * self.n_ctx,
        ensures
            r@ == self.values(layer as int).take(n_tokens * self.n_embd_kv),
    {
        let end = n_tokens * self.n_embd_kv;
        vstd::slice::slice_subrange(self.v_cache[layer].as_slice(), 0, end)
    }
}

/// `n` copies of `fill`.
fn filled<T: Copy>(fill: T, n: usize) -> (r: Vec<T>)
    ensures
        r@.len() == n,
        forall|i: int| 0 <= i < n ==> #[trigger] r@[i] == fill,
{
    let mut r: Vec<T> = Vec::new();
    let mut i: usize = 0;
    while i < n
        invariant
            i <= n,
            r@.len() == i,
            forall|j: int| 0 <= j < i ==> #[trigger] r@[j] == fill,
        decreases n - i,
    {
        r.push(fill);
        i = i + 1;
    }
    r
}

/// Copies `src` over `row` from position `off` on.
fn write_at<T: Copy>(row: &mut Vec<T>, off: usize, src: &[T])
    requires
        off + src@.len() <= old(row)@.len(),
    ensures
        final(row)@ == written(old(row)@, off as int, src@),
{
    let mut i: usize = 0;
    while i < src.len()
        invariant
            off + src@.len() <= row.len(),
            row@.len() == old(row)@.len(),
            i <= src@.len(),
            forall|j: int| 0 <= j < off ==> #[trigger] row@[j] == old(row)@[j],
            forall|j: int| off + src@.len() <= j < row@.len() ==> #[trigger] row@[j] == old(row)@[j],
            forall|j: int| 0 <= j < i ==> #[trigger] row@[off + j] == src@[j],
            forall|j: int| off + i <= j < off + src@.len() ==> #[trigger] row@[j] == old(row)@[j],
        decreases src@.len() - i,
    {
        row.set(off + i, src[i]);
        i = i + 1;
    }
    let ghost w = written(old(row)@, off as int, src@);
    assert forall|m: int| off <= m < off + src@.len() implies row@[m] == w[m] by {
        assert(row@[off + (m - off)] == src@[m - off]);
    }
    assert(row@ =~= w);
}

/// What a read gives back of a store: once `k` is written at position
/// `pos`, reading the first `n_tokens` positions (`pos` among them) shows
/// `k` at `pos`, and every other position keeps what it held.
pub proof fn lemma_read_back_stored<T>(row: Seq<T>, pos: int, n: int, k: Seq<T>, n_tokens: int)
    requires
        k.len() == n,
        0 <= pos < n_tokens,
        0 <= n,
        n_tokens * n <= row.len(),
    ensures
        written(row, pos * n, k).take(n_tokens * n).subrange(pos * n, pos * n + n) == k,
        forall|i: int|
            0 <= i < n_tokens * n && !(pos * n <= i < pos * n + n) ==> #[trigger] written(
                row,
                pos * n,
                k,
            ).take(n_tokens * n)[i] == row[i],
{
    assert(pos * n + n <= n_tokens * n) by (nonlinear_arith)
        requires
            pos < n_tokens,
            0 <= n,
    ;
    assert(0 <= pos * n) by (nonlinear_arith)
        requires
            0 <= pos,
            0 <= n,
    ;
    let w = written(row, pos * n, k);
    assert(w.take(n_tokens * n).subrange(pos * n, pos * n + n) =~= k);
}

} // verus!
