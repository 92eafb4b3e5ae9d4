# little_snitch_mcp

The rules by which the Little Snitch firewall is driven from outside: looking at its rule
set, rule files, traffic and preferences, proposing changes of the live state, and letting
such a change through only with the token of its proposal and behind a backup.

- `src/` computes on plain values and is verified with Verus.
  - `model`: rules, groups and the whole rule set, their JSON form, new rules, partial changes
  - `safety`: confirmation tokens, the guards on rules and preferences, names of groups
  - `tools`: one module for each tool
  - `json`, `text`, `hash`, `net`, `textdiff`, `time_fmt`: what the tools are made of
- `app/` runs the `littlesnitch` command, and reads and writes files.
- `tests/` runs the library.

A tool that changes the live state comes in two steps. The first says what would change and
issues a token that is bound to that change. The second makes the change if the token is
accepted: once, within a minute, and only for what was proposed.
