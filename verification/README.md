# pictor_kernels

Compute kernels for 1-bit, ternary and 8-bit weights, verified with Verus:
quantised matrix products, the float operations of transformer inference, cache
packing and prefetch, tiled products over threads, and the planning of GPU work.

- `src/` is the library. Every function in it is verified but nine small wrappers
  of calls into `scirs2_core`, `rayon` and the standard library, whose contracts are
  trusted; three types of `scirs2_core` are declared opaque.
  - `arith` — single-precision arithmetic as the kernels use it. Numbers are held
    as their bits; an `Arith` says what operations make of them, and contracts
    name every operation of a kernel and its order.
  - `blocks`, `simd_avx2`, `fp8`, `simd_fp8_*` — weight blocks, dequantisation and
    products.
  - `simd_float_ops` — softmax, RMS norm, SiLU, SwiGLU and RoPE for three
    instruction sets.
  - `packing`, `prefetch`, `parallel_tiled` — layout, cache hints, tiles.
  - `gpu_backend` — backends and their choice, the processor's backend, device work
    through GPU contexts (`scirs2_backend`), and Metal plans (`metal_graph`,
    `metal_prefill`). Operations check their arguments and return the exact
    sequence of allocations, uploads, launches and reads. The `memory` modules prove
    that no plan touches a buffer before it is there, and `causal` that a layer's
    prefill is causal. `machine` carries plans out, given what their kernels compute;
    over it `convolution_plans` proves that every plan of a convolution makes that
    convolution, `gemm` that pooled products are those of their rows, and `attention`
    that pooled and standalone attention agree.
- `tests/` runs the library on concrete numbers, with the machine's arithmetic and
  with a host that carries plans out.
- `app/` is the front end: the machine's arithmetic, threads, prefetch instructions
  and the drivers of GPU contexts and of Metal.
