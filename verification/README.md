# sit

Structured interactive git commits: pick the changed files, a category
(feat, fix, docs, …) and an optional module, write the message, and commit —
with hooks around committing and pushing, branch switching, amending,
undoing, releasing and connecting to GitHub.

## Layout

- `src/` — the library, verified with Verus.
  - `config.rs` — configuration files applied on top of the defaults
    (local over global), subject templates, module recommendation.
  - `git/` — the arguments of each git command and what its output means.
  - `hooks.rs` — hook environments (`--env`, reserved `SIT_*` keys) and
    what a hook's exit means.
  - `picker.rs`, `ui/` — what each key does in the file picker, the
    selectors, the description editor and the yes/no questions, and the
    exact text each draws.
  - `cmd/` — every command as a state machine: it asks for outside work
    (git, a hook, the user) and is told what came of it.
  - `app.rs` — the command line and the command in progress.
- `app/` — the binary: clap, terminal input and drawing, inquire prompts,
  running git and hooks, reading the TOML files.
- `tests/` — the library's tests.
