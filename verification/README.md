# ccturn

A post-hoc auditor for coding-agent session logs (one JSON record per line):
which skills fired, which subagents ran, which tools were used and how often
they failed, what went wrong, and where a human stepped in. It also lists the
projects under a log root and the sessions of one project.

The library under `src/` is verified with Verus:

- `json`: the JSON model the library reads, and its compact text (string
  literals written by `serde_json`).
- `parser::record`: decoding a log line into a record and its content blocks;
  unknown keys are carried, never blocking.
- `extract`: the five extractors (skills, subagents, tools, errors,
  interventions).
- `report`: one pass over a session's lines into a report.
- `locator`: picking the session among the candidate log files and resolving
  its project's working directory.
- `list`: the per-session metadata pass, the session listing and the project
  listing.
- `format`: the human renderings of the report and the listings, with their
  columns aligned.
- `timestamps`: RFC 3339 parsing and rendering, done by `chrono`.
- `text`: character-level helpers (decimal rendering, prefixes, truncation,
  padding, string order).

`app/` holds the command line (`spin`, `crates`, `tracks`): argument
handling, the file system, JSON output, and the one floating-point rendering
(durations in seconds with one decimal).
