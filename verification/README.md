# floatctf_api

The decisions and computations behind the FloatCTF platform's API, written
in Verus and proved against their contracts: scoreboards and score trends,
rankings, the event calendar and the reading of the CTFtime feed's events,
pagination and filters, the scheduler's task states, sessions and passwords,
the membership rules of events and teams, the key-value store of cached
values, and the changes the admin pages make to stored records.

Layout:

- `src/` — the verified library, one module per area (`scoreboard`,
  `trend`, `ranking`, `standing`, `calendar`, `rss`, `filter`,
  `pagination`, `scheduler`, `accounts`, `membership`, `content`,
  `settings`, `admin`, `roster`, `monitor`, `ops`, `kv`, `views`, and the
  shared `text`, `order`, `error` and `response`). Calls into chrono,
  quick-xml, cron, argon2 (password hashing and checking), jsonwebtoken
  (HS512 tokens), serde_json and uuid stand behind small trusted
  wrappers whose doc comments say what is assumed of them; where a result
  takes pages to state (what quick-xml reads from a feed, what serde_json
  reads from a filter, a password check, a signed token, a cron schedule's
  next run) it is named, and the library's contracts speak of that name.
- `tests/` — tests of the library on concrete values.
- `app/` — a command-line entry and the parts that the library leaves to
  ordinary Rust: reading the environment and files, JSON forms of its
  values, and the floating-point scores.
