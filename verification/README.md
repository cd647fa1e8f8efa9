# issue-tracker

A local issue tracker for one person: a window, an HTTP API on localhost, a
command line (`issue`) and a set of tools for agents (`issue-mcp`), all over the
same Issues.

The library under `src/` is written in Verus. Every rule of the tracker is a
verified function there, with its contract stated over mathematical models:

- `domain`: Statuses, Priorities, Sizes, Tags, Views, Issues and how they are
  narrowed and ordered.
- `projection`: the Issues in memory, what may be changed and what a change comes
  to. `projection::laws` holds what every change keeps.
- `api`: HTTP requests and responses, authentication, routes and the JSON on the
  wire. `api::laws` holds what a read answers after a write.
- `operations`, `client`, `protocol`: what a client asks, how it is sent, and
  that the two ends agree.
- `cli`: the words of a command line, what a command does step by step, and what
  it prints.
- `mcp`: the tools, as calls and as answers.
- `store`: rows and settings as the database holds them.
- `ui`: what a window looks at, what it shows and what it writes.
- `text`, `time`, `json`, `percent`: what the rest is written in.

What is taken on trust is marked `external_body` or `assume_specification`, each
with a comment saying what is claimed of the outside function it calls.

`app/` is the program around the library: sockets, the database, the terminal,
the window and the agent protocol. `tests/` runs the library.
