# sdef

A typed parser for Apple scripting definition (`.sdef`) XML files, written in
Verus. quick-xml tokenizes a document; what its tokenizers yield for a text
is named, not described (`plain_tokens`, `ns_tokens` in `events.rs`). From
those tokens on, the reading, the strict-mode check, the lookups and the
writer are verified against their contracts, and a written dictionary is
proved to read back, event by event, as itself.

## Layout

- `src/` — the verified library.
  - `events.rs` turns a document into a stream of events with quick-xml's
    tokenizers; `document.rs` describes the element structure of such a
    stream; `xmlmap.rs` states and implements how an element maps onto a
    typed value (attributes and child elements by local name, unknown ones
    passed over).
  - `dictionary.rs`, `command.rs`, `class.rs`, `decl.rs`, `metadata.rs` and
    `typeref.rs` hold the AST types, each with what its element reads as, how
    it is written, and the proof that what is written reads back. The
    `<result>` element of a command is the `CommandResult` type (named so
    that it does not shadow `std::result::Result`).
  - `strict.rs` is the strict-mode pass; `emit.rs` the writer; `readback.rs`
    the events that spell a written value and the generic part of the proof
    that they read back; `text.rs` and `yorn.rs` the byte, text and
    `(yes | no)` helpers; `error.rs` the error type.
- `tests/` — the test suite.
- `app/` — reading documents from files and readers, and the error type with
  `std::error::Error`.
