# pty

The core of a proxy that sits between a terminal and a shell and offers completions in a
popup. Its rules are written in [Verus](https://github.com/verus-lang/verus): executable Rust
with contracts that are proved. What they rest on is not proved: the screen emulator, the
suggestion engine, the drawing of the popup and the language models, and the ordinary Rust
that runs them.

| Where | What |
| --- | --- |
| `src/input.rs`, `src/predict.rs` | keys in the bytes of the terminal; the command line as keystrokes show it |
| `src/handler/` | the popup: what a key does, when suggestions are computed, how results of providers are merged, what is painted and what is owned on the screen |
| `src/proxy/` | rules of the two streams and of the tasks beside them: private control sequences, cursor reports, deferred triggers, typing pauses, timers, shutdown |
| `src/shell_completion.rs` | completions of fish and zsh |
| `src/spawn.rs`, `src/resize.rs` | decisions around processes and the size of the terminal |
| `src/model.rs`, `src/text.rs`, `src/order.rs`, `src/decimal.rs` | plain values and the text they are made of |
| `tests/` | the library run on concrete values |
| `app/` | ordinary Rust around the library: the terminal, the shell, and the tasks |

A decision that needs something done in between comes in steps. `InputHandler::trigger`, for
example, says whether suggestions are to be computed; the caller computes them, and hands
them to `InputHandler::finish_trigger`, which says whether the popup is to be painted.

What holds across functions stands in public proof functions whose names begin with `law_`.
Time is counted in milliseconds since some start; every function that needs it takes it as an
argument.
