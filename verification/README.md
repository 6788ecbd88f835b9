# ajemi

The verified core of Ajemi, an input method for Toki Pona on Windows.

- `src/` (Verus): the decisions the input method takes around the system —
  reading the preferred keyboard layout family, classifying keyboard layout
  ids, one step of the search for an installed layout of that family, the
  language profile that results, the registry path of the COM server, the
  tray icon for the theme, the outcome of an edit session, where the
  candidate window goes, the categories the input method registers in, the
  UTF-16 form of the names it hands to Win32, and the text of a log line and
  of its timestamp.
- `app/` (plain Rust, Windows only): the calls into COM, the registry, the
  keyboard layout list, the clock and the log sinks, which feed the verified
  functions and act on what they return.
- `tests/`: tests of the verified functions on concrete values.
