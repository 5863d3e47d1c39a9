# kclock

The decisions of the K-Clock desktop clock, verified with Verus.

- `src/` is the verified library: which system sounds are offered as alarms and in
  what order (`sounds`), which links may be opened and how (`links`), the tray menu,
  tray clicks and close requests (`tray`), the "about" window and the brightness it
  follows (`about`), the update check as a state machine (`update`), and the text
  helpers they share (`text`).
- `app/` is the Tauri program around it: window calls, file reads, process launch,
  the Win32 calls and the floating-point pixel scaling.
- `tests/` runs the library on concrete values.
