# telisq

A planning and execution engine for software projects: plans are markdown
files of tasks with status markers, files, contracts and dependencies; a run
executes the tasks in dependency order with code and review agents, asks the
user when something needs a decision, and keeps the plan's markers and a
session store up to date.

## Layout

- `src/` is the library, verified with Verus. It holds the plan format
  (parsing, validation, dependency graph, marker rewriting), the task board
  and the run controller that decides what a run does next, the agents'
  decision machines (code, review, clarification, questions), the command
  line parser, the terminal interface's state, the session records, the
  crawler's chunking, the patcher, the model's message types and stream
  decoding, and the tool-server bookkeeping. Contracts state each function's
  result over mathematical models; laws that span functions are public proof
  functions.
- `app/` is the program around the library: terminal, files, processes, the
  model's HTTP API, SQLite, the embedding and vector services, and the
  terminal interface's drawing. It performs the actions the library chooses
  and reports their outcomes back.
- `tests/` runs the library on concrete inputs.
