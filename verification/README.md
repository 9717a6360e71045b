# FlyTable

A verified rules kernel for Japanese Riichi Mahjong, for four and for three players.

- `src/mahjong`: tiles, hands, melds, shanten, readings of a winning hand, yaku, fu and points.
- `src/event`: the event streams of both games, and the match log with its checks.
- `src/maintainer`: what a seat sees, which actions are legal, what is safe, and mirrors that
  follow a table from its events.
- `src/inference`: what is said to an engine for a decision, how its reply is checked, how engines
  are scheduled, and how packages are validated, digested and certified.
- `src/cli`: the rules behind the command line: who sits at a table, how self-play goes on, and what
  is printed of a hand, a match or a match log.
- `src/json.rs`, `src/text.rs`: documents and texts.
- `app`: processes, files, the network and the command line itself.

Every function of `src` states what it returns, and Verus proves it. What is taken on trust are
calls into the standard library and into `serde_json` and `sha2`; each such item says what it
claims. Laws that relate several functions stand as public proof functions beside them.
