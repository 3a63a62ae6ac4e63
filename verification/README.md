# rlsl

A verified core for compiling Rust functions to SPIR-V shaders.

- `src/` is the library, every function of it proved with Verus against its
  contract. `context.rs` holds the compilation context: it lowers types and
  constants into a module, emits each of them once, and turns the finished module
  into bytes. `lower.rs` and `constant.rs` say what is emitted; `laws.rs` and
  `order.rs` state what follows for a whole compilation: ids tell types and
  constants apart, names are no more than names, and every type is declared before
  it is used (but for the never type, which has the id zero and no declaration).
  `layout.rs` holds what is known of the layouts of enumerations. `harness.rs` plans the run of a compute shader on a device and judges
  its results.
- `src/builder.rs` is the one file that trusts something: each call into `rspirv`
  stands there with what is taken for granted of it.
- `tests/` runs the library with the real `rspirv`.
- `app/` is ordinary Rust: it writes a module to `shader.spv`, and runs a compute
  shader on a Vulkan device for a `quickcheck` test.
