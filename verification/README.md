# citybound

The simulation server's own logic, written in Verus and verified:

- `src/units.rs` — simulation time: durations, instants, times of day and
  ranges of the day that may run across midnight, with their laws.
- `src/cli.rs` — the command line: its grammar (the city folder, the options
  and their defaults per mode, `--help` and `--version`), the values it
  gives, and the network settings read from them.
- `src/network.rs` — the network settings, the address shown to players, the
  start-up banner, the crash report texts and the frame time samples.
- `src/browser_ui.rs` — asset path sanitizing, the rendering of the root page
  and the choice of reply to a request.
- `src/config.rs` — configuration tables, the manager that holds them and
  the watcher that decides when a configuration file is read.
- `src/random.rs` — a seeded generator that re-hashes its state with FNV-1a,
  seeded from the operating system's random source, and random identifiers
  made from that source's bytes or drawn from the generator.
- `src/text.rs` — decimal numbers, trimming and pattern replacement.

`app/` holds the program around the library: the HTTP server, the panic
hook, reading the process's command line and configuration files, and the
parts that compute with floating point.
