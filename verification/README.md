# smduperemover

Finds and removes duplicate filenames in Soundminer SQLite databases, working on a copy of
the database.

- `src/` is the verified library (Verus): command-line reading (`config`), grouping and
  ranking of duplicate records (`records`, `order`, `listing`), the search for numbered
  copies such as `crash.1.flac` (`deep`), the SQL text the program
  runs (`sql`), the configuration files (`settings`), tag counting (`tags`), database
  comparison (`compare`), derived paths (`paths`), the stages of a run (`run`), text helpers
  (`text`) and the one database query made from the library (`db`).
- `app/` is the program: it reads files and standard input, talks to SQLite and prints.
- `tests/` exercises the library on concrete values.
