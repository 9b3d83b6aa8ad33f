# zbxpatrol

Inspection and risk scoring of servers monitored by Zabbix: it groups each
host's items by what they measure, aggregates them over a time range, scores
every host under one of three strictness tiers (or declarative rules from
`patrol.toml`), and writes a console table, CSV, JSON or an Excel workbook.
It runs as a command-line tool, an interactive wizard, or a local HTTP API.

## Layout

- `src/` — the library, verified with Verus. Every function carries a
  `requires`/`ensures` contract over mathematical models (`Seq`, `Map`,
  `int`), and the properties that span functions are public proof functions
  named `law_*`.
  - `text` — character-level string helpers (trim, replace, join, parsing).
  - `errors` — error kinds, exit codes, messages.
  - `types` — the records read from the API and written to reports.
  - `rules` — item recognition rules (built-in table, custom overrides,
    wildcard keys).
  - `discovery` — scope checks, OS family, classification of a host's items,
    group membership.
  - `scoring` — strictness tiers, thresholds, score accumulation and the
    integer scoring rules.
  - `problems` — severities, merging and ordering of problems, problems per
    host, trigger hosts.
  - `report` — the summary of a report and the top-risk ranking.
  - `items` — item listings grouped by key.
  - `timerange` — periods, relative durations, explicit ranges in a zone.
  - `env`, `patrol_config` — settings from environment values and
    `patrol.toml`.
  - `lang`, `bilingual`, `render`, `menu`, `args` — interface decisions:
    language, English renderings, labels, menu answers, command-line and API
    arguments.
  - `ordering`, `stability` — stable orderings, restart detection.
- `app/` — the program around the library: Zabbix JSON-RPC client, data
  fetching and floating-point aggregation, Excel/console rendering, the
  command line, the wizard and the HTTP server.
- `tests/` — tests of the library on concrete values.
