# kittzo

A small payment tracker: payments are recorded by hand or by monthly schedules, and each
payment asks a human for confirmation through a chat notifier (Discord), with a reconcile job
that re-sends what was never delivered and picks up decisions that were missed.

- `src/` is the verified library (Verus): money amounts and their validation, calendar dates
  and the monthly recurrence rule, confirmations and their decision lifecycle, the decisions
  the services and jobs take, the reading of chat reactions, the configuration defaults, and
  the codecs between entities and stored rows. Calls into `time`, `uuid`, `rust_decimal` and
  `rusty-money` go through small trusted wrappers whose contracts are documented beside them.
- `app/` is the program around it: the HTTP API (axum), SQLite storage (sqlx), the Discord
  adapter (twilight), the async services and background jobs, and configuration file loading.
- `tests/` runs the library on concrete values.
