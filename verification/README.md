# rwcore

Verified core logic of a streaming database's SQL decimals, aggregate kernels, meta-node
leader election, datagen source planning and storage-level sanity checks.

- `src/` is the library, checked by Verus:
  - `fixed.rs`: finite decimals (96-bit mantissa, scale up to 28) with their byte forms;
    arithmetic, rounding, parsing and printing are computed by `rust_decimal`.
  - `decimal.rs`, `decimal_codec.rs`: SQL decimals with NaN and the infinities, their
    arithmetic rules, storage bytes, text and PostgreSQL binary forms; `decimal_laws.rs`.
  - `agg.rs`: one step of `sum`, `min`, `max`, `first`, `count`; `agg_laws.rs`.
  - `elections.rs`: campaign, term and election-loop state machines; `election_laws.rs`.
  - `datagen.rs`, `datagen_options.rs`: which field generator each column gets, and where a
    datagen reader starts; `datagen_laws.rs`.
  - `hummock.rs`: level sanity checks and pin listings; `hummock_laws.rs`.
  - `strings.rs`: text helpers (case folding, comparison, integer parsing and printing).
- `app/` is the runtime around it: byte streams, the meta store driver with its timers and
  channels, floating-point conversions and functions, and printing.
- `tests/` runs the library on concrete values.
