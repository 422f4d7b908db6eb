# cosmic-widgets

Native HTML/CSS desktop and edge widgets for the COSMIC desktop, with the package,
permission and document logic written in Verus and proved against its contracts.

## Layout

- `src/` — the verified library (`cosmic_widgets`):
  - `capability` — capability flags and deny-by-default grants, with the network host
    allowlist;
  - `manifest` — the `widget.toml` schema and its invariants;
  - `package` — `.cwidget` archive checks: member scan, resource ceilings, safe paths,
    symbolic links, the manifest, required files and active content; the SHA-256 digest;
  - `document` — declarative text bindings, attribute escaping and the clock document;
  - `json`, `provider` — dotted-path lookups and the shared provider tree with revisions;
  - `theme` — the COSMIC token stylesheet;
  - `logic` — Extism widget logic: the sandbox settings handed to the plugin builder and
    the output ceilings;
  - `renderer` — the headless recording renderer: live surfaces, mounted documents,
    recorded patches and the theme stylesheet;
  - `surface`, `shell`, `layout`, `install`, `binding`, `text` — layer-surface decisions,
    shell vocabulary, placement vocabulary, installed file names, bindings and text helpers.
- `tests/` — tests of the library.
- `app/` — the `cosmic-widgets` program: command line, D-Bus control service, file
  access, the Wayland/WGPU/Blitz presentation path, floating-point geometry, and the
  serde copies of the library's persisted types.
