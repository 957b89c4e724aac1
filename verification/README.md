# data_api

The decision logic of a set of profile feature endpoints (guestbook,
questions and answers, doodles, polls, a secret link, a time capsule, a card
draw, presence leases, a hit counter, neighbours, night mode, a moon widget,
profile revisions and a reverse side), written in Verus and proved against
its contracts.

- `src/` is the verified library. Each feature has a module; `json` models
  JSON documents, `text` holds trimming and number parsing, `rejection` the
  refusals with their HTTP status, code and reason, and `outside` the calls
  into digest, MAC, Base64, scrypt, UUID, randomness and calendar crates,
  whose contracts are trusted rather than proved.
- `tests/` runs the library on concrete values.
- `app/` is the HTTP side: routing, request bodies, the database and the
  clock. The library decides what a request is refused for and what is
  stored; the database queries in `app/` keep the rest (which rows a listing
  returns, the order of pinned doodles, counts, and pruning of old
  revisions, expired leases and used grants).
