# adbbar

The logic of ADB Bar, a system tray app for Android devices reachable over
the network with `adb`, written in Verus and proved against its contracts.

- `src/` is the verified library: reading adb's output (`adb`), the saved
  devices and settings (`store`), the tray menu and window focus (`tray`),
  the adb requests and pairing watch (`commands`), finding and installing
  tools (`search`, `scrcpy`, `download`), notifications (`notify`), the
  network scan (`scanner`), the UI language (`locale`), quoting for shells
  (`quote`), and the text and map primitives they share (`text`, `maps`).
  Each module states its laws as public proof functions named `law_*`.
- `app/` is the Tauri program around it: processes, files, HTTP, the
  network scan's sockets, the tray icon and the window.
- `tests/` runs the library on concrete inputs.
