# sshy

An SSH connections manager that keeps groups, servers and credentials in an
encrypted SQLite database instead of SSH config files.

- `src/` is the verified library (Verus): identifiers and their canonical
  text, byte paths, the settings (where they live, what is stored, what is
  read back), the decoding of the database rows into groups with their
  servers, the records written to the database, the arguments and answers of
  `ssh`/`ssh-keygen`, the steps of creating credentials, and the menus of
  the interactive mode with what each choice leads to.
- `app/` is the program around it: prompts, the settings file, the sqlx
  store, and the processes it runs.
- `tests/` exercise the library on concrete values.
