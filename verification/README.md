# oxideav-core

Core types of the oxideav media framework, written in Verus: every
function in `src/` carries a `requires` / `ensures` contract that Verus
proves, and the properties that relate several functions are stated and
proved as `law_*` proof functions beside them.

Layout:

- `src/rational.rs`, `src/time.rs` — exact fractions, time bases,
  half-away-from-zero rescaling with saturation, timestamps.
- `src/format.rs`, `src/frame.rs`, `src/picture.rs`, `src/stream.rs`,
  `src/vector.rs` — sample / pixel formats, channel layouts, frames and
  their palette side-channel, attached pictures, codec tags and stream
  parameters, colors and vector style settings.
- `src/arena/` — the arena pool behind decoder frame allocations: leases
  bounded by a slot count, bump allocation bounded by a byte cap and an
  allocation-count cap, and frames whose planes are validated against
  the arena.
- `src/registry/` — the container registry (demuxer/muxer factories,
  extension claims ranked by priority then recency, content probes
  ranked by score, priority, then registration order) and the source
  registry (URI schemes to drivers, with the `file` fallback), and the
  codec registry: one implementation list per codec id, each entry with
  its capability record, the ids offering a decoder or an encoder, tag
  claims kept in registration order, listings of every implementation
  and every tag claim, the test of a capability record against stream
  parameters, and the decoder / encoder candidates for given
  parameters (factory present, capabilities admit them, registration
  order). Ranking those candidates by preference, with fallback when a
  factory fails, is not part of the library: the preference type it
  depends on is not defined here.
- `src/text.rs` — character-level helpers shared by the parsers and
  formatters.
- `app/` — plain Rust around the library: the frame enum, codec-tag
  resolution by probe confidence (the library lists the claimants of a
  tag in registration order; the floating-point choice among them is
  made here), seekable I/O and input probing, source dispatch,
  link-time registration, and the floating-point time and
  vector-graphics helpers.
- `tests/` — the test suite, run against the compiled library.
