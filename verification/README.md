# Fusebox

A local board for Tapo plugs: it finds them on the network, switches them by
hand, by schedule, by condition and by automation, tells hooks what changed, and
reads back what they used.

- `src/` is the library: everything that decides or computes, with its contracts.
  - `devices`, `conditions`, `schedules`, `hooks`, `settings`, `state`,
    `migration`, `energy` and `sheets` hold the board and its rules;
    `calendar`, `clock` and `time` the moments that they go by.
  - `automations/` holds the graphs of blocks: the expression language
    (`lexer`, `parser`, `coerce`, `expr`, `functions/`), the graphs themselves
    (`graph`, `cycles`), the blocks (`node`, `flow`), and the three ways to run
    them (`tick`, `dry_run`, `forecast`).
  - `host` is what the library asks of the program around it: doubles, JSON text
    of values that hold doubles, the local calendar, cron moments, and random
    draws.
- `tests/` runs the library.
- `app/` is the program: web server, loops, plugs, files.

Doubles are kept as bit patterns, moments as milliseconds since the epoch, and
in `energy` as nanoseconds.
