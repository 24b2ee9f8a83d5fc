# avr_core

Formatting and panic support for a small embedded core library, verified
with Verus.

- `src/fmt/` — the formatter: its options (fill, alignment, flags, width,
  precision), padding of strings and integers, the `Write` trait, the
  formatting traits with their impls for the primitive types, and the
  rendering of precompiled format strings (`Arguments`), with or without
  per-placeholder specifications (`rt::v1`). Every output is specified over
  `FormatterView`, the options plus the text emitted so far.
  `src/fmt/laws.rs` holds the properties proved of the padding rules and of
  rendering.
- `src/panicking.rs` — the decisions of the panic routines: the register
  accesses of the blinking panic loop, and the data handed on by the bounds
  check and by formatted panics.
- `app/` — the panic routines themselves: volatile register accesses and the
  hand-over to the panic implementation.
- `tests/` — tests of the library on concrete values.

An argument (`ArgumentV1`) is a value of a closed set of kinds (`ArgValue`):
a count shown in decimal, or a string slice, boolean or character formatted
by `Display` or `Debug`. Verus has no function pointers, so an argument
cannot carry an arbitrary formatting function; values of other types,
including types with their own `Display` or `Debug` impls, cannot be
interpolated.
