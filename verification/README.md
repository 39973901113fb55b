# minibookd

Decision logic of two small Linux daemons for the Chuwi MiniBook X
(U300), verified with Verus:

- `minibookd` turns the hinge angle measured by two accelerometers into
  Laptop/Tablet mode, with hysteresis and a debounce, and drives the
  firmware's `LTSM` method, a virtual `SW_TABLET_MODE` switch and a
  display-rotation reset.
- `dsi-blank-retry` watches the kernel log for the DSI panel failure and
  retries Mutter's `PowerSaveMode` toggle a bounded number of times.

Layout:

- `src/` is the verified library: the state machine (`state`), the
  watchdog's staleness rule (`watchdog`), the hardware-write plans and
  per-tick decisions (`control`), the command line (`cli`), the
  `/proc/acpi/call` text protocol (`acpi`), axis parsing (`accel`), the
  `busctl` argument lists (`display`, `repair`), kernel-log recognition
  (`kmsg`), and the character-level helpers they rest on (`text`,
  `numeric`). Angles are integer millidegrees and times are monotonic
  nanosecond timestamps.
- `app/` is the unverified shell: file, device and process I/O, signals,
  threads, the clock, and the floating-point hinge geometry. One binary
  serves both daemons, chosen by the name it is run under.
- `tests/` runs the library on concrete values.
