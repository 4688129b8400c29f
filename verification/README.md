# profile_query

Verified core of a small HTTP API that searches demographic profiles, with a
keyword-based reader for plain-English queries.

- `src/` — the library, verified with Verus:
  - `nlp.rs` — reading a query such as "young males from kenya" into filters;
  - `filters.rs` — the filter set and the stand-alone SQL builder `build_query`;
  - `handlers.rs` — which listing requests are refused, the count and page
    queries of the others, and the pagination envelope;
  - `services.rs` — age brackets and the checks on the name-lookup replies;
  - `utils.rs` — page clamping, profile identifiers and timestamps;
  - `text.rs` — case mapping, substring search and decimal rendering.
- `app/` — the server: routing (axum), PostgreSQL access (sqlx), the
  lookup-service calls (reqwest), and the JSON shapes (serde).
- `tests/` — tests of the library.
