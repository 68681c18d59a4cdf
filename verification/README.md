# tui_logger

A logger with widgets for terminal user interfaces that show what was logged, verified with
Verus.

* `src/` is the library: circular buffers of events, level filters per target, the state behind
  the widgets, and what the widgets lay out and draw. Each function states in its contract what
  it returns or changes; the `law_` functions state what holds of several of them together.
  `ratatui` draws, `chrono` tells and formats the time; `screen` and `clock` say what is assumed
  of them.
* `app/` shares one logger and the states of widgets within a program, and connects them to
  `log`, `tracing` and `ratatui`.
* `tests/` runs the library with the crates it draws and formats with.
