# cmish

An interactive shell for CMIS repositories (browser binding): log into a
configured connection, switch repositories, `cd` through folders, `stat`
objects and run `select` queries.

- `src/` is the library, verified with Verus: query statements and their
  conditions, the request parameters and headers, the status check of answers,
  reading object properties, path resolution (where a path starts, its steps,
  and how the results of parent and child lookups decide the next object),
  paging (each answer, a failed request included, and the decision to go on
  or stop), the configuration, repository choice, the secret cache, the
  prompt, the shell's reaction to each evaluated line, the output of `stat`
  (laid out by serde_json), and the rendering of numbers and durations.
- `app/` is the program around it: the command line (clap), the line editor
  (rustyline), HTTP (ureq), JSON (serde, serde_json), the progress display
  (indicatif) and the files in the home directory.
- `tests/` exercises the library on concrete values.
