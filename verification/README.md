# particle_life

The verified integer core of a GPU particle-life simulator.

- `src/` is the library, checked by Verus: world-size parsing, attraction
  matrix share codes and memory layout, the xorshift generator, spawn
  budgets and grid dispatch sizes, the quick / suite / capacity benchmark
  schedulers, keyboard shortcuts, PNG framing for icons, thumbnails and
  screenshots, and the records the UI panels return.
- `app/` is a headless command-line front end around the library: it loads
  and saves presets and sessions, applies command-line overrides, prints a
  report of the resulting simulation setup and runs the floating-point
  parts (particle seeding, colour conversion, frame-rate statistics).
- `tests/` exercises the library with the real `png` and `base64` crates.
