# runtime_tracker

A device usage tracker for Cloudflare Workers: devices report the app in the
foreground and their battery; the tracker spreads usage time over local hours,
counts screen time while any device is in use, and serves daily, weekly and
monthly statistics and AI-written daily summaries.

## Layout

- `src/` — the library, verified with Verus:
  - `text` — decimal formatting, integer parsing, splitting and trimming;
  - `time` — time-zone arithmetic, dates, ISO timestamps, week and month ranges;
  - `models` — the stored and returned records;
  - `usage` — spreading usage time over hours (a step machine driven by the caller);
  - `recorder` — what a device report changes;
  - `tally`, `stats` — totals per app, hour and day;
  - `eyetime` — screen time;
  - `settings` — environment and stored settings, the admin's changes;
  - `access` — request checks, storage keys, admin tokens, query parameters;
  - `summary` — the AI summary's prompt, record and status.
- `app/` — the Worker: routes, KV and D1 storage, HTTP calls to the model.
- `tests/` — tests of the library.

## Units

App usage is counted in hundredths of a minute and screen time in milliseconds,
as unsigned integers; the Worker stores and returns minutes as floating-point
numbers and converts at the edges.
