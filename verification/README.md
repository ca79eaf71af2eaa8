# hotkey_cmd

A launcher that binds commands to Ctrl+Alt hotkeys, split in two:

- `src/` — the verified library (Verus): reading hexadecimal key codes,
  the key-name table, the command table loaded from configuration (with its
  conflict and unknown-key reports), launch settings, hotkey registrations,
  and the decisions of the command thread and the message thread.
- `app/` — the program around it: command line, JSON files, channels,
  threads, process spawning and the Win32 hotkey calls.
