# minishell

A small interactive shell whose logic is a Verus-verified library.

- `src/` — the verified library:
  - `tokenizer`: splitting a line into words, quotes, escapes and
    redirections (`>`, `>>`, `1>`, `2>`), and a line into `|` pieces;
  - `expand`: `$NAME` and `${NAME}` substitution;
  - `builtin`: `exit`, `echo`, `pwd`, `cd`, `type`, `jobs`, `history`,
    `declare` (and `cat`), as functions from a command, the shell state and
    what the surroundings answered, to output text and a new state;
  - `shell`, `jobs`: the shell state, history numbering, job bookkeeping;
  - `runner`, `pipeline`: what to run next;
  - `text`: the string functions the rest is built on;
  - `laws`: properties across functions, proved.
- `app/` — the terminal loop (`rustyline`), files, directories and
  processes.
- `tests/` — tests of the library.
