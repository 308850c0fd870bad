# odds_api

A service that builds a validated in-memory state of tradable fixtures and
odds from the OddsPapi REST snapshot and keeps it current from the OddsPapi
websocket feed. Every fixture, bookmaker and quote passes one risk engine,
which enables, disables or ignores it; only enabled data is stored.

The library in `src/` is verified with Verus:

- `risk` — the risk engine and its verdicts, with the reason texts.
- `state` — the accepted state (fixtures, quotes, and the odds identifiers
  filed under each fixture) and the removals that keep it consistent.
- `bootstrap` — building a state from a snapshot, and the odds request
  chunking.
- `processor` — routing websocket messages and applying live fixture, odds
  and bookmaker updates, with updates held back while a snapshot is rebuilt.
- `snapshot`, `stream`, `config` — request URLs, the retry rule for REST
  responses, the websocket login message and the sport list setting.
- `keyed`, `text`, `types` — keyed lists, text parsing, and the feed's
  records.

`app/` holds the program around it: environment settings, HTTP and
websocket I/O, JSON decoding, and the tasks and channels that connect them.
