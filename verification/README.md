# tl_codegen

A code generator for Telegram's TL scheme files: it reads `.tl`
declarations and writes the C++ type classes (`scheme.h` / `scheme.cpp`),
the dump-to-text serializers and, when configured, conversion functions to
an external API. The library is written in Verus: every function states
what it returns, and Verus proves it.

Layout:

- `src/text.rs` — character and string operations with their specifications.
- `src/config.rs` — the generator configuration.
- `src/tl.rs` — input lines, the `// LAYER` marker and comment tags.
- `src/parse.rs`, `src/resolve.rs` — the TL grammar at token level and name resolution.
- `src/crc.rs` — CRC-32 type ids.
- `src/parse_model.rs`, `src/parser.rs` — the meaning of a whole scheme parse and its implementation.
- `src/ir.rs` — the parsed scheme and its ordered tables.
- `src/emit/` — the C++ emitters (header, type and method classes, dump-to-text, conversion).
- `src/driver.rs` — the outputs of one run and the files they go to.
- `src/loc.rs` — the line-count metric's rules.
- `src/bridge.rs` — the build fingerprint.
- `app/` — the command line, file input and output, the C ABI of the bridge, and the metric's tree walk.
