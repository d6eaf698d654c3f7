# weblab_macros

The logic behind weblab's `#[weblab(programming_assignment)]` attribute,
verified with Verus.

An assignment is a module holding a reference solution, a spec test, and
optionally solution and test templates and a library, each marked with a
`#[weblab(..)]` annotation. Expanding the attribute searches the module twice
(once for the reference, once for the template), takes the annotations out of
the items, drops imports of `weblab`, refuses imports of crates that weblab's
build does not provide, and gathers the title, the assignment text (the doc
comments) and the contents of the annotated modules.

- `src/` — the verified library. It works on its own model of a module's
  items (`Item`, `ItemMod`, `UseTree`, ...), each with a mathematical value
  that the contracts speak of. The only outside calls are reading the Cargo
  manifest of weblab's build (`cargo_toml`) and `str::trim`.
- `app/` — the token side: reading a `syn` module into the model, and writing
  the library's expansion back as tokens with `quote`.
- `tests/` — tests of the library.
