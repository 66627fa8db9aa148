# mir_lower

Lowering of a MIR-like dialect for GPU kernels to LLVM operations, written in
Verus. Each lowering function takes a `Builder`, appends operations to it, and
states in its contract exactly which operations it appends, what it returns,
and on which inputs it refuses with which error.

* `types` translates Rust types to MIR types (`rust_types`, `mir`).
* `arithmetic`, `cast`, `constants`, `memory`, `aggregates`, `enums`,
  `addressing`, `array_extract`, `call` and `intrinsics` lower operations.
* `llvm` and `ops` hold LLVM types and operations; `slots` says where the fields
  of an aggregate stand in its LLVM type.
* `semantics` gives emitted operations a meaning, with `stack_memory` for values
  as bytes in stack slots. `correctness`, `aggregate_laws`, `enum_laws` (over
  `enum_memory`), `enum_round_trips`, `memory_laws`, `library_names` and
  `type_laws` prove what follows: a shift takes its amount modulo the width, a
  field that was built is the one that is read, for payloads too, whether they
  have a slot or share bytes with other variants, a variant is found again from
  the bits that encode it, and the like.

Layout facts (slots, offsets, sizes) come in as plain values. Arbitrary-precision
constants and identifiers come from `pliron`.
