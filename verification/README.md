# nepix

A terminal launcher for Minecraft, written as a Verus-verified library and a
thin program around it.

- `src/` is the library, verified by Verus:
  - `app.rs`: the launcher's state and the state machine behind every key
    press and every report of the sign-in and launch tasks. Each handler
    returns the outside work it asks for (`Effect`: save the settings, sign
    in, launch, open the game directory, cancel).
  - `config.rs`: the settings and their first-run values.
  - `mc.rs`: loaders, loader-version selection (Fabric, Quilt, Forge,
    NeoForge listings), JVM options, and how the game launcher's reports
    become screen events.
  - `ui.rs`: the text of the screens and the placement of dialogs.
  - `log.rs`: log lines.
  - `text.rs`: trimming, splitting, number parsing and printing on characters.
  - `laws.rs`: properties that span several key presses or reports.
- `app/` is the program: terminal, network, files, background tasks, and
  drawing with ratatui.
- `tests/` runs the library on concrete inputs.
