# adbchelper

The verified core of a desktop operations copilot: it reads Kubernetes events, ELK log
searches, Nacos configuration drift, Redis and TiDB health, and SSH host diagnostics,
gathers them into investigations with timelines, cross-source correlations and reports,
and runs a small set of approved write actions behind a production safety policy.

- `src/` is the library, verified with Verus. Each module states what its functions
  return over mathematical models (`Seq`, `Map`, spec functions), and the `law_*` proof
  functions state properties that span calls: masking leaves no credential after a
  marker, resolved SSH commands are whitelisted, the approval lifecycle, the production
  scaling bounds, known_hosts merging, log clustering, the Nacos diff, the streaming RESP
  parser and the order of investigation timelines.
- Calls into outside crates (`serde_json`, `chrono`, `keyring`, `uuid`) and into the parts
  of std that touch the machine stand behind small trusted wrappers whose doc comments say
  what is assumed of them.
- `app/` is the shell around the library: the SQLite store, files, child processes, the
  HTTP, MySQL and Redis clients, and the floating-point figures.
- `tests/` runs the library on concrete values.
