# fc_server

A server that watches the source directories of its copy tasks for transport packets, copies
the packets it finds by each task's rules, records them in an SQLite database and answers an
HTTP API about them.

- `src/` is the library, verified with Verus: SQL query building (`query`, `tables`), the copy
  rules and delivery reports (`copy_rules`), task countdowns (`schedule`), the check that a file
  has stopped changing (`file_check`), the cache of directories already seen (`excludes`), the
  renaming of forgotten directories (`forgotten_dirs`), task settings (`settings`), routing and
  request parameters of the API (`api`), paths and found files (`files`), dates (`date`) and
  error messages (`error`).
- `app/` is the program around it: command line, settings file, database, HTTP server and the
  loops that scan, copy and rename.
- `tests/` runs the library on concrete values.
