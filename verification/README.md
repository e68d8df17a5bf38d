# tui_kit

The core of a terminal user interface, verified with Verus: what each key
does, navigation between views and dialogs, focus, help, the layout engine
(where each widget of a layout tree goes, by constraints or priorities, with
breakpoints, compact mode, dynamic adjustments and kept layouts),
configuration, error classification and recovery, user
feedback (progress, notifications, dialogs, status messages), terminal
capability detection, and the bookkeeping of rendering, startup, memory and
performance, with an in-memory byte cache and a cache of rendered content.

Layout:

- `src/` — the library. Its functions carry contracts that Verus proves,
  except a few small trusted wrappers marked `#[verifier::external_body]`
  (calls into `serde_json`, `ratatui`'s layout solver and buffer size, the
  clock, and std's upper-casing and quoting), whose contracts are taken on
  trust and say in their doc comments what they claim; the `law_*` proof
  functions state properties that span several operations (what a read
  gives back of a write, what one step undoes, the bounds every operation
  keeps).
- `tests/` — tests of the library on concrete values.
- `app/` — the terminal around it: reading keys and the environment,
  drawing with ratatui, threads, sleeping and the clock, and the figures
  that need floating point.
