# capadvisors-backend

The backend of a CA Final (Advanced Financial Management) study service:
accounts and sessions, ingestion of study material into chapter-tagged
chunks and questions, a review queue for generated questions, quiz grading,
tournament ratings with a leaderboard, and student profiles.

## Layout

- `src/` — the library, verified with Verus. The rules the service applies
  to its inputs live here with contracts (all but those on floating-point
  values): word chunking
  (`text`), keyword classification and chunk mapping (`nexus`), request and
  upload checks (`map`, `upload`, `profile`, `quiz`, `analysis`), grading
  and per-chapter activity (`quiz_submit`; the server mounts no submission
  endpoint, since submitting also needs an AI-text detector and a
  per-question rating update that this project does not hold), standings, games and badges
  (`ranking`), credential handling (`auth`), the model prompts (`prompts`)
  and the string primitives they rest on (`strings`).
- `app/` — the HTTP server around the library: routing, the database,
  multipart parsing, PDF text extraction, calls to the model, JWT encoding,
  and the Glicko-2 arithmetic, which works on floating point.
- `tests/` — tests of the library's public functions.
