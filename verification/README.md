# driver_explorer

DriverExplorer lists the kernel drivers loaded on a Windows machine, lets the
user search, sort and select them, and loads, unloads, starts and stops
driver services.

- `src/` is the verified library: the driver table (filtering, case-folded
  search, stable sorting on every column), the selection (click, Ctrl-click,
  Shift-ranges, keyboard navigation), the status bar and the Driver Manager's
  log, the text of table cells, clipboard lines, the detail panel and the
  snapshot comparison report, and the two colour palettes. The functions
  carry contracts proved by Verus, except a few thin wrappers around std
  (the clock, the channel, `to_lowercase`, `String::push`) whose contracts
  are trusted; `src/laws.rs` states the properties that relate several
  operations.
- `app/` is the program around it: the egui window, file dialogs, the
  background enumeration thread and the calls into the Windows service
  manager. It hands the library plain values and carries out the requests
  the library returns.
- `tests/` runs the library on concrete values.
