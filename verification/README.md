# osubot

A QQ bot (OneBot 11) that answers osu! queries. The decisions of the bot are
a library verified with Verus; the process around it is ordinary Rust.

- `src/` — the verified library:
  - `text` — strings as character sequences: search, trim, split, decimal
    numbers, replacement.
  - `config`, `reload` — configuration rules, validation messages, group
    switches, redacted debug output, hot-reload merging and its outcome.
  - `onebot`, `upstream` — reading OneBot events and the replies of the
    upstream binding bots.
  - `rate_limit`, `last_beatmap_cache`, `clock` — throttles and the per-group
    last-beatmap cache.
  - `score_filter`, `score_query`, `sort` — score filters, request sizes,
    which scores a query shows.
  - `dispatch`, `flows`, `reply` — what happens to a message, each command's
    steps and replies.
  - `preview`, `scheduler` — beatmap preview planning; the background
    refresher's activity classes and schedule.
  - `match_listener` — the multiplayer-match listener: the cursor machine,
    delivery, the texts and result cards.
- `tests/` — tests of the library.
- `app/` — the process: configuration file, WebSocket connection, handlers,
  background tasks.
