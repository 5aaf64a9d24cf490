# XDR `TryFrom<Bytes>` decoder printer, verified

Given the syntax tree of XDR definitions and three indexes (named types,
constant values, and the types that take a `Bytes` parameter), `print_impl_from`
writes one `impl TryFrom<Bytes>` block per struct, union, enum and typedef.

- `src/ast.rs`: the syntax tree.
- `src/index.rs`: the type, constant and generic indexes, with map/set views.
- `src/text.rs`: decimal rendering and reading of `u32`, identifier escaping.
- `src/emit.rs`: the error type and the model of a printer's run (text written,
  then completion, an error, or a panic).
- `src/printer/impl_from.rs`: the printer; its contract is the exact text it
  writes, as spec functions, and when it fails.
- `src/laws.rs`: properties relating the printers, proved.
