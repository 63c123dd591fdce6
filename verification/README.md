# pg_dispatcher

Listens to a PostgreSQL notification channel and executes a command for each
notification; the payload is sent to the command's standard input.

- `src/` is the verified library: configuration and channel validation
  (`cli`), the `LISTEN` statement (`pg_source`), the dispatch loop and its
  rules (`dispatcher`), the runner roles, the command spec and exit mapping
  (`traits`), error texts (`error`), and character-level helpers (`text`).
- `app/` is the program around it: command-line parsing with `clap`, the
  database connection, worker threads and child processes, and logging.
