# mlkit — ModLoader installer for BROKE PROTOCOL

A graphical installer that adds ModLoader and Harmony to a BROKE PROTOCOL
installation: it registers both assemblies in
`BrokeProtocol_Data/ScriptingAssemblies.json`, registers
`ModLoader.Core.Start` in `BrokeProtocol_Data/RuntimeInitializeOnLoads.json`,
and copies the two DLLs to `BrokeProtocol_Data/Managed`. Each JSON file is
backed up to `*.modloader.bak` before it is changed; running the installer
again adds nothing twice; uninstalling restores the backups and deletes the
DLLs.

Layout:

- `src/` — the library, verified with Verus: the `libraryfolders.vdf` parser
  (each line read on its own) and the Steam library list, the JSON edits and
  their laws (idempotence, append-only), with `serde_json` reading and
  printing the files behind trusted wrappers, and the install/uninstall state
  machine with its laws (backup before write, backups never overwritten,
  nothing deleted but restored backups and found DLLs, every DLL written by a
  successful install). `disk` models the game folder as the machine's actions
  change it and proves the round trip (installs then an uninstall give the
  folder back as it was) and that a second install changes no file, where
  the JSON printer's text of each edit reads back as the edited document.
- `app/` — the program: the egui window, the Windows registry lookup, and the
  loop that performs the machine's actions on the disk. The two DLLs are
  embedded from `assets/`.
- `tests/` — tests of the library, the installer driven against an in-memory
  game folder.
