# apxinf_cuda

The planning layer of a CUDA inference backend, verified with Verus.

Every operation of the backend is a function from plain descriptions of its
operands (element type, extents, device, address, length) to the native call
that it makes, or to the reason why the request is refused. The contracts say
which call that is and on which inputs each refusal comes. Floats cross the
library by their bits.

- `src/cublas.rs`, `src/ffi/`: cuBLAS calls for row-major products.
- `src/kernels/attention/`: which attention kernel runs a shape, the composed
  route in chunks, segments of packed sequences, the split planner.
- `src/kernels/gemm/`: tactics, plans and their cache, BF16, FP8, INT8, AWQ and
  Marlin products, packed decode weights.
- `src/kernels/`: caches, elementwise operations, mixture of experts, image
  preprocessing, launch policies.
- `src/nvcc_cache.rs`: reuse of compiled objects.
- `tests/`: concrete values, run against the compiled library.
- `app/`: device memory, streams, graphs, the environment and the native calls.

Two facts are taken on trust, each stated where it is used: what
`half::bf16::to_f32` returns, and what `String::push` appends.
