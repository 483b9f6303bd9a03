# asset_ingest_api

A service that accepts file uploads (CSV, JSON, images), parses each file
into records and stores them as JSONB rows in Postgres. The logic is a
Verus-verified library; the HTTP, database and process plumbing around it
is ordinary Rust.

## Layout

- `src/` — the verified library
  - `text.rs` — integer and float literal recognition (the grammars that
    `str::parse` accepts), decimal rendering, string helpers
  - `auth.rs` — constant-time comparison and the API-key decision
  - `rate_limit.rs` — bucketing of requests by API key, answers to refusals
  - `config.rs` — configuration from environment values, with defaults
  - `error.rs` — `IngestError`, and `AppError` with status codes and messages
  - `ingest/` — records, the `Ingestor` trait, choosing an ingestor by
    extension then content, and the CSV, JSON and image ingestors
  - `routes/` — paging of the asset listing; per-file upload results
- `app/` — `main`, the axum router and handlers, middleware, database access
- `tests/` — tests of the library
