# whowns

`whowns` answers "who installed this executable, and what is the safe way to
update or remove it?" for a command on `PATH`. It reports every match on
`PATH` (the active one first, then shadowed ones), the owner of each
(a package manager, a version manager, the operating system, or an
unconfirmed owner), the manager's own installation source, and action
guides that are printed, never run.

## Layout

- `src/` is the library, verified with Verus:
  - `text.rs`, `path.rs`: string and Unix path operations, with their models
    over `Seq<char>`.
  - `model.rs`: owner identities, evidence, nodes, resolutions and graphs.
  - `detect/owner.rs`: per-owner facts (names, manager executables, queries,
    action guides); `detect/root.rs`: manager roots taken from the environment.
  - `detect.rs`: layout detection, and what package tools and manager queries
    report.
  - `exec.rs`: the query policy (reuse of recorded outcomes, notes, bounded
    capture of output).
  - `scan.rs`, `graph.rs`: PATH candidates, the active match, and the owner
    chain from a runtime up through its managers to an installation source,
    with at most eight owners and an unconfirmed source where a cycle or the
    bound ends it.
  - `output.rs`: the tree text and JSON renderings; `json.rs`: the JSON
    document read as a JSON value that mirrors the graphs; `cli.rs`: argument
    parsing and exit statuses.
- `app/` is the command: it reads PATH, the filesystem and the environment,
  runs the queries as processes with a timeout, and prints what the library
  renders.
- `tests/` exercises the library on concrete values.
