# tuwui

The verified core of a terminal tool that edits the dependencies of a cargo manifest:
it lists the dependency tables of `Cargo.toml`, checks crates.io for newer versions,
and sets versions, default features and features. The edits go through `toml_edit`,
whose documentation promises to keep the rest of the file's layout; the proofs speak of
the entries of the document (their kinds, values and order), not of its formatting.

- `src/` is the library, verified with Verus. `manifest` reads and edits the manifest
  over a model of its TOML document (`toml`); `updater` turns a registry's answer into
  an update status; `features` finds a dependency's features in the workspace metadata
  and the chains of features that imply them; `app`, `keybinds` and `ui` hold the state
  of the interface and decide what each event and key does.
- `app/` is the program around it: the terminal, the event channel, the HTTP requests,
  `cargo metadata`, the configuration files and the drawing.
- `tests/` runs the library on concrete manifests and events.
