# full-yolo

An autonomous agent that works through the tasks of a `todo.md`, one at a time, by calling an
assistant on the command line. The decisions are a library that is verified with Verus; a thin
program around it does the input and output.

## Layout

- `src/text.rs` says what the operations on text mean, `src/scan.rs` performs them, and
  `src/text_lemmas.rs` holds facts about them.
- `src/patterns.rs` decides which prompt a task is given to, with regular expressions of the crate
  `regex`; `src/pattern_laws.rs` states what holds of that.
- `src/todo.rs` reads a `todo.md`, selects the next task and checks tasks off; `src/todo_laws.rs`
  states what holds as the tasks are worked off.
- `src/prompt.rs` reads prompt files and fills tasks into them; `src/prompt_laws.rs` states what
  holds of the two.
- `src/fetch.rs` decides where prompt files come from, `src/runner.rs` how the assistant is called,
  `src/failure.rs` how failures are reported, `src/version.rs` what the version is.
- `src/agent.rs` is an iteration as a sequence of steps, each of which is answered with what came
  of it; `src/agent_laws.rs` states what holds of an iteration whatever the answers are.
- `app/` parses the command line and performs the steps.
- `tests/` runs the library on concrete values.

## What is trusted

The proofs rest on the contracts of `Regex::new`, `Regex::is_match`, `Regex::replace` and the text of
a `regex::Error` (in `src/patterns.rs`), and of `String::push` (in `src/scan.rs`).
