# zhuanzhuan

A tray program that, at a set interval, runs a light around the edge of the
screen for the user's head and eyes to follow.

- `src/` is the verified library: the settings file (`config`), the
  background timer's decisions (`timer`), the texts shown to the user
  (`display`, `controls`), reading typed numbers (`numbers`), UTF-16 text
  for the Windows API (`utf16`), the overlay's Win32 structures
  (`overlay`), and decoding the tray icon (`icon`).
- `app/` is the program around it: the window (eframe), the tray
  (tray-icon), starting with the system (auto-launch), the Win32 calls,
  drawing the light, and the thread that runs the timer.
- `tests/` exercises the library.
