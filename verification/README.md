# ankicode

Local spaced repetition for LeetCode problems, as a Verus-verified library.

`src/` is the verified library:

- `problems` — problem identity: slug rules, URL parsing and canonical URLs, titles,
  stored spellings of difficulties and statuses.
- `learning` — ratings, review events, the conversion of a review history into FSRS
  day deltas, and the due instant of a projection.
- `daily_queue` — civil-day windows (fixed offsets and IANA zones) and the validation
  of persisted daily assignments.
- `settings` — time-zone checks and pairing codes.
- `storage` — the repository's decisions: reading rows, the greedy daily pick, review
  retries and chronology, integration idempotency, client pairing and authorization,
  token hashing and migration checksums.
- `backup` — backup checks and the replay order of imported reviews.
- `integration` — loopback API request handling: bearer tokens, origins, statuses.
- `commands` — the shapes the desktop UI exchanges.
- `calendar`, `entropy`, `digest`, `text` — dates and zones from `chrono`/`chrono-tz`,
  randomness from `rand`, SHA-256 and hex from `sha2`/`hex`, and character-level text
  helpers. The first three hold the trusted items.

`app/` holds what runs around it: the FSRS model (floating point), SQLite through
`rusqlite`, the `axum` server, and the command handlers.
