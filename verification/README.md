# bastion_http

The decision logic of the Bastion backup Hub's HTTP layer, written in Verus and verified:
request parsing and validation, list filters and paging, the command center and dashboard
sections, the agent socket's task and deletion handling, documentation serving, enrollment,
artifact streaming checks and the error model.

- `src/` is the verified library. Each public function states what it returns in its
  `ensures`; the `law_*` and `lemma_*` proof functions state properties that span calls
  (normalization is idempotent and order-free, every page of a directory listing holds the
  smallest keys after its cursor and two pages join into the start of the whole listing,
  readiness never counts more covered jobs than active ones, one-time tokens are accepted
  exactly as often as they allow, streamed bytes arrive in order, and so on).
- `tests/` runs the library on concrete values.
- `app/` holds what cannot be verified: directory reading, JSON and cursor encodings, the
  standard library's error chains, and the I/O loop around the artifact stream buffer.

Calls into outside crates (`url`, `base64`, `serde_json`, `chrono-tz`, `mime_guess`, `time`,
`blake3`) go through small `external_body` functions whose contracts are assumed rather than
proved; each says beside it what it assumes of the crate it calls.
