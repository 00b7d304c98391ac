# observatory

A health monitor for the services that EPC runs. It polls each service listed
in `~/.epc/services.toml`, stores the history in SQLite, texts an alert when a
service changes between running, degraded and stopped, and serves a
dark-mode dashboard with a status card and a dot sparkline per service.

## Layout

- `src/` is the library, verified with Verus:
  - `poller.rs`: what a check found (`precheck`, `probe_outcome`), the health
    endpoint address, the host address from `tailscale ip -4`, and what a poll
    writes and alerts (`plan_poll`, `poll_service`);
  - `clock.rs`: the time stamp of a check, the system clock in RFC 3339 UTC
    form, or why there is none;
  - `alert.rs`: when a change of status is alerted and the message text;
  - `dashboard.rs`: ANSI stripping and HTML escaping of logs, the log page,
    the status pips and dots, and the dashboard page;
  - `db.rs`: the rows of the store; `page.rs`: the fixed page text;
    `text.rs`: decimal numerals and string equality.
- `app/` is the program: configuration, the SQLite store, the poll loop with
  its file reads, commands and HTTP probes, and the web server.
- `tests/` runs the library on concrete inputs.
