# store_hours

A small service that keeps stores and their weekly business hours and tells
whether a store is open now, when it next opens and when it next closes.

- `src/` is the verified library:
  - `calendar.rs`: weekdays, times of day, dates as day numbers; chrono does
    the date arithmetic and reads the clock.
  - `models.rs`: stores, hours, requests and answers; when hours cover a time.
  - `schedule.rs`: finding a day's hours, the next opening, the status at a
    moment.
  - `weekly.rs`: setting one weekday's hours and listing the week in order.
  - `store.rs`: the state (stores and hours by id) and its operations.
  - `handlers.rs`: the HTTP status and body of each answer.
- `app/` is the HTTP server (axum, tokio): routes, JSON forms of the types,
  the lock around the state, logging.
- `tests/` runs the library on concrete values.
