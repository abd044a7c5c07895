# ir_hasher

Interface and implementation hashes for the top-level definitions of a BAML
program (functions, classes, enums, type aliases, clients, retry policies),
each with the definitions it depends on, directly or through others.

The interface hash of a definition changes when anything its callers rely on
changes (names, types, `@assert` constraints, `@@dynamic`); the
implementation hash also follows what only changes behaviour (aliases,
descriptions, `@skip`, field order, prompts, clients, options).  `@check`
constraints reach neither.

## Layout

- `src/` — the library, verified with Verus.
  - `types`, `type_rpc`, `values`: types and values and their encodings.
  - `interfaces`, `ast/`: the definition traits and the bytes each kind of
    definition hashes.
  - `agg`, `agg/shallow_hash`, `agg/signature`: shallow hashes, transitive
    dependencies, full hashes and signatures.
  - `ir`, `ir/`: a program's intermediate representation and its adapters.
  - `publisher`: functions and types with the identifiers of their
    dependencies.
  - `ast_node_id`, `text`: published identifiers and their text form.
  - `decoding`: the encodings read back, so that equal interface bytes come
    from definitions with equal interfaces.
  - `graph`, `order`, `sorting`, `encode`, `digest`: supporting definitions.
  - `laws`: properties that relate definitions, programs and calls.
- `tests/`: the test suite, with a reader for the BAML subset it uses.
- `app/`: serde, TypeScript bindings, strum names and the publishing wrapper
  keyed by name, around the library.
