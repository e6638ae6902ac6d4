# mhrono

Dates, times, durations, frequencies, spans, series and trading calendars,
with their behaviour stated in `requires` / `ensures` contracts and proved
with Verus.

Layout:

- `src/` the verified library.
  - `date.rs`, `time.rs`: calendar dates and instants in a time zone, their
    arithmetic, parsing and formatting (chrono and chrono-tz do the zone and
    text work behind small trusted wrappers).
  - `duration.rs`, `cycles.rs`, `fixed_freq.rs`, `semantic_freq.rs`: lengths
    of time, counts of cycles and frequencies, held as exact decimals.
  - `op.rs`, `iter.rs`: operations on dates and times, and stepping through
    them.
  - `span.rs`, `span/`: spans with open, closed or unbounded ends.
  - `seq/`: series of values kept in order.
  - `calendars/`: holiday rules, trading calendars and the NYSE calendar.
- `tests/` the tests, run against the compiled library.
- `app/` the parts that need outside traits: serde and `Display` copies of the
  library's types, conversions to and from chrono values, floating point and
  random sampling.
