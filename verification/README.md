# hogan

Hogan renders handlebars templates against per-environment JSON configuration
files, from the command line (`hogan transform`) or as an HTTP service
(`hogan server`) that serves rendered templates and configuration by commit or
branch.

## Layout

- `src/` is the library, written in Verus. Verus checks every function's
  body, against its contract where it has one (its public functions and
  most private ones do). The small wrappers around calls into `std` and
  outside crates (marked `#[verifier::external_body]`) are the exception:
  their contracts are trusted as stated from those crates' sources and
  documentation.
  - `config.rs`: parsing config sources (`file://` paths and git URLs, with an
    optional path inside the repository and a branch fragment) and resolving
    an environment's configuration as `global`, patched by its type, patched
    by its own file (`json.rs` holds the JSON model and the merge patch).
  - `transform/`: the template helpers (`comma-list`, `equal`/`eq`, `or`,
    `lowercase`, `yaml-string`, `url-add-slash`, `url-rm-slash`,
    `url-rm-path`) and the HTML escaping.
  - `head.rs`: the bookkeeping of branch-head lookups shared by concurrent
    requests; `git.rs`: the decisions around clone, fetch and reset.
  - `storage/`: cache keys, the in-memory least-recently-used stores, the
    compressed payloads of the persistent caches and the order in which a
    chain of caches is read.
  - `error.rs`, `server.rs`, `template.rs`, `couchbase.rs`,
    `datadogstatsd.rs`: error answers, request helpers, rendered file names,
    connection strings and metric names.
- `app/` is the program around the library: the command line, the HTTP
  server, the actors, file, git, SQLite and Redis access, and the handlebars
  glue.
- `tests/` exercises the library.
