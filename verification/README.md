# cmail

A command line utility for sending periodic email with the output of long
running commands, whose decisions are verified with Verus.

    Usage: cmail [options] [<args> ...]

Without arguments, `cmail` emails what it reads from stdin. With arguments, it
runs them as a command in the shell, where each of them is a single argument, and
emails what the command writes. Data is emailed at a period of 900 seconds, or as
`--period` says; with a period of 0, once at the end. `cmail` responds
gracefully to signals and to a command that is terminated unexpectedly.

## Layout

- `src/` is the verified library. It performs no input or output.
  - `args`: what the command line asks for.
  - `shell`: that each word of a command is a single argument to the shell.
  - `session`: a run, from its start to its exit code, as a state machine.
  - `history`: what holds of whole runs, such as that every line that is read is
    emailed once.
  - `sender`: what each email carries, and when sending is tried again.
  - `message`: the text of an email, and what the exit status of `sendmail` means.
  - `muxer`: merging the two output streams of a command.
  - `passthru`: showing the output on the terminal.
  - `text`, `error`: lines of text and errors, as plain values.
- `app/` is the program around it: processes, threads, signals and timers.
- `tests/` runs the library on concrete values.
