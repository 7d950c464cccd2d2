# splicefeed

Turns DI.FM premium radio shows into podcast RSS feeds for the local network:
polls shows on a jittered schedule, downloads and verifies episodes, applies
retention, and serves feeds and media over HTTP.

- `src/` is the library: configuration, episode lifecycle, storage, retention,
  sync planning, upstream parsing, RSS and OPML, the control protocol, and the
  text of every report and screen. Each public function carries a contract that
  Verus proves; public proof functions named `law_…` state what holds across them.
- `app/` is the program: the command line, the database file, HTTP in both
  directions, the control socket, the terminal, and signals.
- `tests/` runs the library on concrete values.

What the library takes on trust are the contracts of the small functions marked
`external_body`, each of which makes one call, or one short chain of calls, into
`jiff`, `url`, `blake3`, `secrecy`, `humansize`, `humantime`, `fastrand`,
`quick-xml`, `serde_json`, or the standard library, and that cloning a `url::Url`
gives the same URL.
