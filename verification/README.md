# herdr

The verified core of a terminal workspace manager: what it shows of executions that another
daemon runs, how it removes Git worktrees and branches that were merged, and how it frames and
routes what clients see and send. The library is written in Rust and proved with Verus.

## Layout

- `src/runtime_provider*` and `src/coven.rs`: providers of external executions. A provider's
  worker, the requests it sends, the transcripts and checkpoints it reads, and the owner's
  settings.
- `src/app/`: attachments, operations and polling of those providers, and the API requests on
  them.
- `src/cleanup/`: discovery of worktrees and branches, evidence of merges, ownership by
  sessions, one pass over a repository and what holds of it as a whole, and the rounds of the
  background worker.
- `src/external_renderer.rs`, `src/canvas.rs`: drawing an external terminal into a buffer.
- `src/protocol/`, `src/server/`, `src/terminal/`: surfaces on the wire, input to panes, and
  the registry of terminal runtimes.
- `src/cli/`: the command line's arguments.
- `tests/`: tests of the compiled library.
- `app/`: processes, files, locks, threads and formats around the library. It runs the
  workers of providers and of cleanup, and performs the steps that the library asks for.

## How effects are modelled

The library performs no input or output. Where a decision depends on the outside, a function
takes what the outside said as an argument. Where decisions and effects alternate, a state
machine says which step comes next, and the caller performs it and hands back what came of it.
Paths are byte strings that are compared by their components; times are numbers of
milliseconds, and of seconds in cleanup.

## What is believed without proof

Calls into other crates and into parts of the standard library stand behind small functions
whose contracts say what is believed of them. They are in `text.rs`, `digest.rs`, `json.rs`,
`canvas.rs`, `protocol/surface.rs` and `runtime_provider/settings.rs`.
