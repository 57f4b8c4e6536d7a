# whisper

The back end of the Whisper messenger: a chat server over WebSockets and a
small HTTP API for users, profiles and avatars, backed by PostgreSQL and
object storage.

- `src/` is the verified library (Verus): the data model, the answers to
  errors, the registration and login rules, the avatar naming rules, the
  chat server's state and its decisions about what to send to whom, and the
  heartbeat logic of a WebSocket session.
- `app/` is the program around it: the HTTP routes (registration and login
  under `/auth` among them), the database queries, object storage, access
  and refresh tokens, the WebSocket plumbing, and the JSON forms of the
  types. The database schema is expected to exist already; no migrations
  are run at start.
- `tests/` runs the library on concrete values.
