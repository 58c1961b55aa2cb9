# solcore

Verified core of the Solcore contract front end, written in Verus. The
executable functions carry `requires`/`ensures` contracts that Verus proves
against a mathematical model of its data.

## Layout

- `src/ty.rs`: semantic types (`Ty`, with its view `TyView`), the definition
  table `Db`, substitution, tuple flattening and type display.
- `src/abi_spec.rs`, `src/abi.rs`: canonical ABI lowering: method signature
  strings, ABI types and parameters, calldata arrays, and function selectors
  (Keccak-256 through `tiny-keccak`).
- `src/resolve.rs`: name-resolution facts and definition lookup.
- `src/derived.rs`: compiler-derived ABI, storage and class clauses, and the
  diagnostics of invalid `derive` targets.
- `src/storage.rs`: typing of storage, memory and calldata indexing and of
  storage loads, with type aliases expanded (`ty::expand_aliases`).
- `src/parse.rs`, `src/stmt.rs`: comment attachment, assignment lowering and
  statement terminator validation of the parser.
- `src/token.rs`, `src/attr.rs`, `src/typarse.rs`: lexed tokens and two token
  grammars, each a recursive specification with an executable parser proved
  to agree with it: `#[derive(...)]` attributes (with the recovery of
  malformed and unclosed attributes) and source types.
- `src/enums.rs`, `src/preds.rs`, `src/body.rs`: enum declarations (with
  their derive attribute), class predicates and predicate lists, the
  brace-balanced span of a function body, the bound on delimiter nesting,
  and the framing of a body inside the source bytes.
- `src/emit.rs`, `src/yul.rs`: the Hull expression and statement model (every
  node with its span and type), string literal decoding and layout, operator
  and assignment lowering, and the generated helper functions.
- `src/emitter.rs`: the emitter's scopes, hoisted `let`s and fresh
  temporaries; the lowering of `let`, `return`, `for`, expression statements
  and the `match` that an `if` becomes; and of variables, calls, `if`
  expressions, string literals, memory array reads and constructors (builtin,
  pairs as products, and ADT constructors laid out by their type).
- `src/laws.rs`: properties that hold across all inputs, stated and proved
  over the same definitions as the contracts.
- `tests/`: executable tests of the library.
