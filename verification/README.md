# webtiles-rs

The core of a Dungeon Crawl WebTiles server, written in Verus: each
function of the library (`src/`) carries a contract that Verus proves.

- `src/config.rs`: server configuration, game templates and their
  inheritance, `%n`/`%v`/`%V`/`%r` templating, command-line and
  `config.yml` overrides.
- `src/templates.rs`: the page template engine (`{% include %}`,
  `{% set %}`, `{% if %}…{% else %}…{% end %}`, `{{ expr }}`).
- `src/codec.rs`, `src/deflate.rs`: message batching and per-connection
  raw-deflate framing.
- `src/auth.rs`, `src/userdb.rs`: password hashes (Argon2, legacy crypt),
  login cookies and tokens, account flags, block lists.
- `src/launch.rs`, `src/process.rs`, `src/bridge.rs`, `src/session.rs`:
  launch plans, crash reports, lock files, ttyrec framing, the game
  socket's messages, watchers and moderation.
- `src/lobby.rs`, `src/connection.rs`, `src/gamedata.rs`,
  `src/protocol.rs`: the lobby's decisions, a connection's message-loop
  decisions, chat, game links, client files and message types.
- `src/text.rs`, `src/numtext.rs`, `src/table.rs`: character-sequence,
  decimal and keyed-table helpers.

`app/` is the server binary around the library (HTTP, WebSocket, SQLite,
game processes); `tests/` exercises the library.
