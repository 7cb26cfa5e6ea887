# micro_platform

The platform-neutral core of the Micro App platform, verified with Verus:
the Micro OS reducer, the MBC image model with its validator and binary
codec, the C wire records that carry reducer events and actions across the
ESP32 boundary, the web system shell, board-profile rules and the app-store
manifest operations.

## Layout

- `src/os.rs`: the OS reducer (`MicroOs::dispatch`), its state model and
  the laws every event keeps.
- `src/ir.rs`, `src/codec.rs`: app images, structural validation (stack
  typing of function code) and the `MBC1` format, with the round-trip law.
- `src/esp.rs`: fixed-layout wire records, action batches and `OsHost`.
- `src/system.rs`, `src/describe.rs`, `src/web_style.rs`: the web system
  shell, the text it shows and the inline CSS of text styles.
- `src/board.rs`: board profiles and their validation messages.
- `src/render.rs`: the UI tree, its patches and the web renderer over a
  DOM trait.
- `src/subset.rs`: the syntax model of the TypeScript subset apps are
  written in, its checker (`validate_module`, the `MTS001`-`MTS003`
  findings) and the reading of text styles (`lower_text_style`, `MTS014`).
- `src/store.rs`, `src/activation.rs`, `src/font_manifest.rs`, `src/text.rs`:
  app-store manifest edits, shared event queues, glyph coverage and text
  helpers.
- `tests/`: executable tests of the library.
- `app/`: what stays outside verification: JSON conversion with serde, the
  file-backed app store, the JSON face of the system shell, and the SWC
  parser front end that turns TypeScript source into the subset's syntax
  model (`validate_source`).

## Scope

The bytecode lowering of the compiler, the VM with its event runtime, and
the LVGL, SDL, ESP-IDF and browser hosts are not part of this crate. The
lowering compiles arrow bodies to bytecode over floating-point constants,
the VM, the runtime and the LVGL renderer compute with floating-point values
(which the verifier here does not take), and the hosts are native or browser
I/O over raw pointers and DOM handles. The SWC parser's syntax tree is read
in `app/`, which hands the verified checker a plain syntax model. What those
parts decide on plain values is here: the subset checker and the text-style
rules of the compiler, the wire records and diagnostics of the ESP32
boundary, the image format the compiler writes, the validation the runtime
relies on, the shell the browser drives, the inline CSS and glyph coverage
the renderers use, and the web renderer itself (`src/render.rs`), which maps
the UI tree and its patches to the calls of a narrow DOM trait; only the
browser's implementation of that trait lies outside.
