# mote server

The server of Mote, an assistant for working on code: it talks to language
models, runs the agent loop and its tools, and keeps sessions. The library is
written in Verus, and what it does is stated in contracts and proved.

## Layout

- `src/` is the library.
  - `text`, `strmap`, `paths`, `json`, `clock`: strings, maps from strings, paths,
    JSON values and times.
  - `config`, `auth`: settings, agents, permissions and credentials.
  - `llm`: messages, requests to the providers and their streamed answers.
  - `prompt`: the system prompt and the reminder of each turn.
  - `agent`: the agent loop as a state machine; `agent::laws` states what holds of
    every run.
  - `tools`: what each tool is asked for and reports, and delegation to subagents.
  - `session`, `history`: conversations and the files that keep them.
  - `protocol`, `server`: what clients send and are sent, runs, rollback and
    compaction.
- `tests/` runs the library on concrete values.
- `app/` is the daemon around it: HTTP and web sockets, files, processes, and the
  types that serde reads and writes.

## What is proved

Functions state their results exactly; those that ask the clock rest on ones that take
the time as an argument. Beyond that, functions named `law_..` prove what holds of the
library as a whole, among others: a tool runs only with permission and with the
arguments that were checked; a path that a tool accepts does not lead out of the
workspace; the loop asks the model a bounded number of times and reports its end once;
a session file is read as it was written; a rollback restores the files, is refused
where somebody else changed them, and reaches the client's own changes alone; a client
that attaches late misses nothing; how a stream is cut into pieces makes no difference.

## What is trusted

Calls to `serde_json`, `regex`, `chrono`, `similar` and a few functions of std stand
behind small wrappers, each with a comment that says what is claimed of the call.
