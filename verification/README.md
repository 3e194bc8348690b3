# disk_scan

A destructive bad-sector checker for block devices. It writes a deterministic xoroshiro128++
stream (seed 42) across each device, then reads it back and verifies every byte without keeping
the data. While it runs, a table shows the progress, the speed, the estimated time and the errors
of each device; at the end comes a report.

**Everything on the devices given with `-d`/`--device` is erased.** The program looks for
partition tables and filesystems first and refuses devices in use (unless told
`--skip-fs-check`), and asks before it writes (unless told `--skip-warning`).

## Layout

- `src/` is the library, verified with [Verus](https://github.com/verus-lang/verus). It does no
  input or output.
  - `chunks`, `pattern`, `scan`: how a device is cut up, what is written to it, and what is to
    be read back.
  - `readback`: what the passes find out about a device.
  - `signature`, `preflight`: what must hold before a device is scanned.
  - `event`, `state`, `board`: the reports of the workers and what becomes of them.
  - `bar`, `eta`, `table`, `report`: what the user gets to see.
  - `order`, `text`, `timeout`: the order of names, text in columns, operations that take too
    long.
- `app/` is the program around it: arguments, devices, threads, the terminal, and the figures
  that are computed in floating point.
- `tests/` runs the library on concrete values.

## What is trusted

The proofs rest on the contracts of two functions in `src/pattern.rs`, which call the generator
of `rand_xoshiro`, and on that of `String::push` in `src/text.rs`.
