# nexus execution core

The part of the NEXUS shell that runs parsed command lines, written in
Verus: every decision is a function or a state machine with a contract over
a mathematical model, and the properties the shell relies on are proved
as lemmas.

## Layout

- `src/` — the verified library (crate `lib`).
  - `expand` — quote removal, escapes and `$` parameters of a word.
  - `env` — shell variables.
  - `ast`, `render` — parsed command lines and their text.
  - `heredoc`, `collect`, `script` — heredoc bodies: which `<<` need one,
    reading them from the input, handing them out, and the script a
    background shell is fed.
  - `command` — dispatch of one command (functions, builtins with
    `repeat`, programs).
  - `list`, `pipeline`, `stages`, `redirect`, `stage`, `subshell`,
    `background` — lists, pipelines, redirections, groups and jobs as
    state machines that name the next action and take back its outcome.
  - `cond`, `arith` — `[[ … ]]` and `(( … ))` commands.
  - `process`, `capture`, `notices`, `text` — exit statuses, command
    substitution output, job lines, string helpers.
  - `laws` — the properties, each proved.
- `tests/` — tests of the library on concrete values.
- `app/` — process plumbing around the library: files, pipes, children,
  the working directory; the rest of the shell is reached through the
  `Host` trait.
