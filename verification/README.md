# anemone_bot

A message-forwarding bridge between QQ (OneBot v11), Discord, Telegram and
Matrix. Each configured bridge ties one chat per platform together; a message
posted in one chat is copied to the others, replies are threaded onto the
matching copies, and recalling a message deletes its copies.

## Layout

- `src/` — the verified library (Verus). It holds the decisions of the bot:
  which bridge an incoming event belongs to and whether it is forwarded, how a
  copy is composed for each platform (tags, placeholders, inline CQ images,
  files, size limits, reply targets), the forwarding and recall runs and the
  sending of a Matrix copy as step functions, the bookkeeping of the bot's own recalls, the route-store record
  format, the controller's start/stop/status state, and the text and number
  handling they rest on. `src/laws.rs` states properties that span several
  operations (decimal round trips, stored routes reading back as reply
  records, forwarding never targeting the source platform and always moving
  forward, recall plans, truncation idempotence).
- `tests/` — executable tests of the library on concrete values.
- `app/` — the program: `anemone_bot` runs the bot from the command line,
  `anemone_bot webui [addr]` serves a web control panel. It holds the
  configuration file, the SQLite store, the HTTP/WebSocket clients and the
  senders, which perform the actions the library decides on.
