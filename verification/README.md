# java_analyzer

Verified analyses of Java sources for editors:

- `parse`, `syntax`, `extractor`: the syntax tree of a text and the cursor in it
- `location`: where in the syntax the cursor stands, and what is to be completed there
- `injection`: the same for broken code, read from a text with a marker at the cursor
- `locals`, `flow`, `expression_typing`, `intrinsics`, `inlay_hints`: variables, types and hints
- `lombok`, `synthetic`: members that annotations generate

`src/` is the library, checked with Verus. `app/` reads settings files from disk. `tests/` runs the
library on concrete sources.
