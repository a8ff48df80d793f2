# gatedkey

The verified core of a Windows key remapper: press a key (the Copilot key,
F13-F24, a macro key) and an app, website, folder or command opens.

- `src/` is the library, checked by Verus: chord names and labels (`keys`),
  bindings and configuration (`config`), the keyboard hook's decision on every
  keystroke (`hook`), how an action is carried out (`actions`), the app
  picker's suggestions (`suggest`) and start-up decisions (`startup`). The
  laws the library keeps (modifiers always pass, a swallowed keydown's keyup
  is swallowed too, unmatched keys leave no trace, argument splitting, the
  order of suggestions) are proof functions beside the code they speak of.
- `app/` is the desktop shell around it: the Windows hook and `SendInput`,
  `ShellExecuteW` and process launching, the JSON configuration file, the tray
  and the user-interface commands.
- `tests/` runs the library on concrete values.
