# diman

Verified core of a dimensional-analysis library.

- `src/magnitude.rs`: `Magnitude`, the exact value `sign * mantissa * 2^exponent` of a
  unit's factor. Decoding a double's bit pattern into it is proved exact and lossless, and
  `is_one` is proved to decide what the double evaluation `sign * mantissa * 2^exponent == 1.0`
  decides, including its rounding.
- `src/storage_types.rs`: the scalar and vector storage types that code generation emits for
  a set of enabled features, with exact contracts on their names and entry types.
- `app/`: the floating-point side (conversions to and from `f64`/`f32`, `powf`, the `Mul` and
  `Div` impls, fastnum decimals) and the syntax-tree form (`syn::Type`, `TokenStream`) of the
  storage types.
