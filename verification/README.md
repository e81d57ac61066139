# cratical

An iCalendar (RFC 5545) library whose behaviour is stated in contracts and
proved with Verus: content lines are unfolded, tokenized and read into typed
properties, components and calendars, checked against the RFC's rules, and
written back.

Covered: RFC 5545's calendar object model; the new and extended properties of
RFC 7986; `VAVAILABILITY`/`AVAILABLE` (RFC 7953); the `VALARM` extensions and
`VLOCATION` of RFC 9074; and RFC 5546 (iTIP) method recognition, status
codes and the per-method restriction tables a calendar with a `METHOD` is
checked against.

## Layout

- `src/ast/` — unfolding (`unfold`), tokenizing (`lexer`), reading one
  content line as a property (`property`), the shape of a token stream of
  calendar objects as spec functions (`grammar`), reading a token stream as
  calendar objects (`parser`), and folding long lines back (`fold`). The
  parser's contract says where each block ends, that every property line
  and nested block is read, in order, and that it succeeds on every stream
  whose lines read and pass the components' checks.
- `src/values/` and `src/values.rs` — the value types (TEXT, URI, DATE,
  DATE-TIME, DURATION, UTC-OFFSET, RECUR, FLOAT, ...), each with a spec of
  what it parses from and how it is written.
- `src/params.rs` — property parameters.
- `src/properties/` and `src/properties.rs` — one type per property.
- `src/components/` — the components, their builders and readers, and the
  rules each checks when it is built.
- `src/calendar.rs` — the calendar object, its builder, and
  `Calendar::parse` / `Calendar::parse_stream`.
- `src/itip.rs`, `src/itip/` — RFC 5546 methods, status codes, and the
  restriction tables.

The outside crates are reached only through small trusted functions whose
contracts say what their documentation promises: `memchr` (line scanning),
`langtag` (language tags), `chrono-tz` (zone lookup and offsets).
