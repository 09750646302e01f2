# powercurve

A power-profile and fan-curve daemon for desktop Linux, with its decisions
verified by Verus.

`src/` is the verified library:

- `curve`: fan curves, interpolation between points and the PWM byte a
  temperature gives.
- `fan_config`, `config_check`: the fan configuration (reals held in
  thousandths) and every check run on it, with the exact messages.
- `fan`: the fan daemon: building channels from a config, the curve each
  channel follows on each profile, and each second's decision per channel
  (critical temperature, overrides, hysteresis, floors, stalls, lost sensors).
- `power`: profile names on each D-Bus interface, what each profile sets,
  the saved profile, and the record of the active profile and of the holds
  applications take.
- `thermal`: stepping the profile down on a critical temperature and back
  after the cooldown.
- `args`: the command-line grammar.
- `watcher`, `matchers`: process-watcher rules, compiled with `glob` and
  `regex`, and when to ask the daemon for another profile.
- `fan_detect`, `fan_test`, `client`, `monitor`, `graphics`, `radeon`,
  `errors`, `gui`: the decisions of the tools, of device detection and of
  the desktop application.
- `text`: decimal rendering and parsing, trimming, string comparison.

`app/` is the program around it: sysfs and hwmon I/O, D-Bus services and
clients, NVML, signals and the main loops. `tests/` runs the library.
