# fyr

Watch files, run commands. The decisions of the `fyr` file watcher as a
verified Verus library, with the command-line program around it.

- `src/` — the library, verified by Verus:
  - `config.rs`: tasks kept by name in ascending order (`TaskMap`), the
    configuration and its operations (add, remove, edit, rename, default),
    where the tasks are read from, and the laws of these operations;
  - `command.rs`: splitting the run command into words (`shell_words`) and
    finding its program (`which`);
  - `paths.rs`: checking the paths to watch and finding files by extension
    (`walkdir`);
  - `tasks.rs`: picking a task and planning what to watch and run;
  - `cli.rs`: the choices of a bare `fyr` invocation and of inline mode;
  - `watcher.rs`: the debounce state machine of the watch loop: a run starts
    once the debounce window has passed since the last change that counts,
    with the law of one run per burst of changes;
  - `templates.rs`: the project files of `fyr init`;
  - `text.rs`, `keyed.rs`, `error.rs`: text order, pair sequences read as
    maps, and the error messages.
- `app/main.rs` — the program: command-line parsing, reading and storing the
  configuration, the task prompt, and the watch loop with its processes.
- `tests/` — tests of the library on concrete values.
