# lrama

Tensor graphs, arena memory, automatic differentiation bookkeeping, the GGUF
model container and a greedy tokenizer, written in Verus with their
behaviour stated in contracts and proved.

## Layout

- `src/` — the verified library
  - `tensor`, `context`, `ops`, `ops_advanced`: tensor descriptions, an
    arena that places tensor data (aligned, growing by blocks), and the graph
    operations that create result tensors with their shapes checked.
  - `graph`, `topo`, `depth`: computation graphs, their execution order
    (Kahn's algorithm, cycles reported), validation, ancestors, statistics
    and depth (the length of the longest chain of sources).
  - `autodiff`, `grad_flow`: the backward pass that builds gradient nodes,
    and what it guarantees about where gradients go.
  - `backend`, `compute`, `simd`, `kv_cache`: graph execution, the kernels
    that move tensor elements (copy, transpose, permute, repeat, row
    gathering), SIMD feature descriptions and the attention KV cache.
  - `gguf`: reading and writing GGUF data held in memory, with a proof that
    a written header reads back as written.
  - `tokenizer`: vocabulary loading, greedy encoding and decoding.
  - `hparams`, `generation`: model dimensions read from GGUF metadata, and
    the stop and feed-back decisions of the generation loop.
- `tests/`: tests run against the compiled library.
- `app/`: the `lrama-cli` program: file access, command line, floating-point
  kernels, dequantization, sampling and the generation loop that follows
  the library's decisions.
