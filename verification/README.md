# rtk

Filters for the output of command-line tools. They keep what a reader needs (changed lines, states,
errors, totals) and drop the rest, and they say so wherever something is left out.

## Layout

- `src/` is the library, verified with Verus: every function is proved against its contract, but for
  the few marked `external_body`, which call into outside crates and the system.
  - `text/` has the text primitives: characters, searching, cutting, numbers, byte positions.
  - `session.rs` models a command that is run step by step: what to print, what to record, what to
    run next.
  - `git/` has the filters for git output. The modules whose names end in `_run` say how a command
    goes on after each process; `git/session.rs` puts them together.
  - `golangci.rs`, `golangci_run.rs` and `golangci_source.rs` are for golangci-lint, with `tally.rs`
    to count and rank.
  - `pnpm.rs`, `pnpm_run.rs` and `parser.rs` are for pnpm.
  - `telemetry.rs` decides when a usage report is due and makes the pseudonym of a device.
  - `truncate.rs` and `utils.rs` hold what they share.
- `tests/` has tests that run the library.
- `app/` is ordinary Rust around the library: processes, files, the network, JSON.

## Contracts and laws

A filter's contract equates its result with a spec function on sequences of characters. What holds of
a filter as a whole is stated by the public proof functions whose names begin with `law_`, next to
the functions that they are about: that nothing is dropped silently from a diff, that a session ends,
that a state in progress is never hidden, and so on.

What the library takes from outside crates and from the system is declared in a few functions marked
`external_body`; the doc comment of each says what is claimed of it.
