# Strandgut

A LAN service-scanner dashboard: it scans a host's ports, recognizes the
services behind them, keeps a dashboard configuration, rotates a background
photo from Pexels, and searches a catalogue of service icons.

The decisions are made by a library verified with Verus; a thin program
around it does the network, disk and clock work.

## Layout

- `src/` — the verified library (`strandgut`):
  - `routes.rs` — the route table (a `matchit` router) and what each request
    asks for, by path, method and query.
  - `icons.rs` — the icon catalogue: cache location, display names, the
    sources' listings, merging them (first name wins, sorted by name) and
    ranked search.
  - `scan.rs` — port lists, page titles, service identification and icon
    slugs, ordering of results.
  - `sse.rs` — the state machine of a scan's event stream and its frames.
  - `background.rs` — the Pexels request and retries, image checks, the
    rotation state between fetches and its status report.
  - `spa.rs` — the embedded single-page application's assets, MIME types and
    caching.
  - `i18n.rs` — language detection from `Accept-Language`.
  - `config.rs`, `error.rs` — the configuration and error types.
  - `text.rs`, `paths.rs`, `sorting.rs` — text, path and stable-sorting
    specifications and operations the rest builds on.
- `tests/` — tests of the library on concrete values.
- `app/` — the server: HTTP with `hyper`, files, `ureq` requests, threads and
  the clock; it asks the library what to do and carries it out.

Each library module states its behaviour in `requires`/`ensures` contracts and
proves laws about it as public proof functions (`lemma_*`).  Calls into the
standard library and outside crates go through small trusted items whose
documentation says what is claimed of them.
