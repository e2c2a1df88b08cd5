# oom-alerter

A foreground Linux daemon that samples `/proc/meminfo` and
`/proc/pressure/memory` and sends desktop notifications before memory
pressure turns into an OOM event.

## Layout

- `src/` is the library, verified with Verus:
  - `text` — whitespace and line splitting, decimal reading and rendering;
  - `memory` — the meminfo and pressure-stall parsers, stall rates in ppm, samples;
  - `monitor` — one step of the daemon: from its state and a sample to the next
    state, the reasons, and whether to notify;
  - `policy` — the Normal / Warning / Critical state machine: MemAvailable
    thresholds with hysteresis, gated decline rates, pressure thresholds with
    exit hysteresis at half, dwell, and the laws it keeps;
  - `alert` — the MemAvailable slope, the notification timing decision and its bookkeeping;
  - `config` — memory sizes such as `768M` or `3GiB`, and the checks on the settings;
  - `clock` — monotonic readings and spans in nanoseconds;
  - `report` — the reasons behind a sample and the texts of notifications.
- `app/` is the program: command-line parsing, file reads, the sampling loop,
  logging and the D-Bus notifications.
- `tests/` exercises the library.
