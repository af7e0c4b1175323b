# tfl — Top For LLM

A terminal monitor for hosts that run local LLM inference (llama.cpp):
CPU, GPU and inference-server figures side by side.

## Layout

- `src/` — the verified library (Verus). Everything the monitor decides or
  computes from what it reads:
  - `text.rs` — character-level text functions (trimming, splitting, lines,
    number parsing and printing) with their specifications;
  - `model.rs` — the bounded history buffer and GPU records;
  - `theme.rs` — colour themes and their cycling order;
  - `app.rs` — the interactive state machine (views, selections, options
    menu, pause, quit, key handling, metric updates);
  - `collector/` — the decision logic of the CPU, GPU (sysfs, `nvidia-smi`,
    DRM `fdinfo`) and llama.cpp collectors;
  - `ui.rs` — view arithmetic and wording (uptime text, process roles,
    Braille cells, gauge rows, scrolling, popup placement);
  - `config.rs` — run-time settings.
- `tests/` — tests of the library.
- `app/` — the program around it: terminal drawing, event loop, file and
  network reading, and the figures that are decimal fractions.
