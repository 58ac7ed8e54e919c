# volte_ims

The IMS stack behind VoLTE lines: how a line gets its bearer, finds its P-CSCF,
registers, stays registered, and carries calls and short messages.

- `src/` holds the decisions, verified with Verus. Work that needs the outside is
  driven step by step: a function says what to do next, and takes what came of it.
- `tests/` runs the library on concrete values.
- `app/` is the host side: tools, sockets, files, clocks and locks around the library.

What the library trusts is small: pushing a character onto a string, reading UTF-8,
the SHA-256 digest of `ring`, and lookups in JSON documents with `serde_json`.
