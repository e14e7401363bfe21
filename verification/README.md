# couchcord

Controller-driven Discord voice control and a voice-activity overlay for a
Steam Deck / HTPC game-mode session: a chord on the Steam Input virtual
keyboard opens a server → voice-channel browser; joining a channel shows a
live roster with speaking indicators in a gamescope external-overlay window.

## Layout

- `src/` — the library, verified with Verus. Every function carries its
  contract; the laws that span functions are public proof functions.
  - `menu/` — the `MenuEngine` state machine (`spec.rs` is its model,
    `laws.rs` the properties proved over it: capture follows the menu, the
    overlay layer is independent of the menu, cursor moves undo each other,
    the anchor cycle returns after eight steps, ...).
  - `reactor.rs` — how steps are applied, which client call each command
    needs, what each reply feeds back, anchor persistence, reconnect backoff.
  - `protocol.rs`, `json.rs` — Discord local-RPC framing, the JSON payload
    text codec (through `serde_json`), request builders,
    reply and event parsing, frame routing and request/reply correlation.
  - `assets.rs` — CDN URLs, initials, the bounded asset cache, RGBA decoding
    (through the `image` crate).
  - `render.rs` — overlay placement, frame layout, theme colours, glyph
    coverage blending, X11 pixel order and request strips, display choice.
  - `doctor.rs` — the pre-flight gate's findings and messages.
  - `input.rs`, `tenant.rs`, `config.rs`, `model.rs`, `msg.rs`, `scene.rs`,
    `ids.rs`, `error.rs`, `text.rs` — the remaining domain pieces.
- `tests/` — behaviour tests against the compiled library.
- `app/` — the daemon around the library: the async Discord socket actor,
  evdev input, the X11 window, tiny-skia/fontdue painting, the TOML file,
  and `main` (`couchcordd doctor` / `couchcordd run`).
