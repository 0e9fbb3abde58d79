# termbookman

A terminal dashboard that shows a live shell beside a sidebar of bookmarked
commands, shell history and script gists.

- `src/` is the library: what clicks, keys and messages do to the state, how
  command books, scripts, history, prompts and GitHub's replies are read, and
  what each part of the screen shows. All of it is verified with Verus. What the
  library asks of the world comes back as a list of actions.
- `app/` is the program around it: the terminal, the shell, files, the network
  and drawing with ratatui.
- `tests/` runs the library on concrete values.

`src/app.rs` holds the state and what every state keeps to; each operation has a
spec function from the state before to the state after and the actions asked
for. Proof functions whose names begin with `law_` state what holds across
operations.
