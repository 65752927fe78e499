# streamcore

Chat aggregation for live streams. Each ingest program reads one chat
platform (Twitch, Trovo, VStream, YouTube), turns every chat line into the
common chat message, and publishes it as JSON to a topic exchange of an AMQP
broker; the chat window consumes the exchange and forwards every message to
its web-socket clients.

- `src/` is the library, verified with Verus: the chat message, the
  per-platform message building (CBOR chat events, emote replacement,
  colours), the settings store, and the broker client's state machine and
  callbacks.
- `app/` holds the programs around it: broker, HTTP, web-socket and browser
  I/O. `streamcore <chatui|twitch|trovo|vstream|youtube>` runs one of them.
- `tests/` exercises the library on concrete values.
