# mers_libs

The types, values and runtime core of the mers scripting language, with
their behaviour stated as contracts and proved with Verus.

- `src/lang`: the types of the language (`VType`, `VSingleType`) and what is
  done with them: ordered unions, references, which type fits in which
  (custom types included), what indexing yields, the types the built-in
  functions accept and return, what the built-in functions compute on
  strings, integers and lists (regular expressions through `regex`), and
  writing types as scripts write them; values (`VDataEnum`) and their types,
  the built-in functions that only compute, run on values (`run_builtin`),
  and running compiled statements on a store of variables (`eval`, with a
  bound on loop rounds).
- `src/script`: the same types without custom types, as the script compiler
  uses them, the step that gives enum variants their ids, and statements as
  the script parser gives them.
- `src/libs`: the byte format in which the interpreter and library processes
  exchange values and types, with laws that decoding gives back what was
  encoded, and the messages that call a library function and carry its
  result.
- `src/parsing`, `src/parse`: source files prepared for parsing (comments
  removed, positions tracked), the parser for type annotations, and the
  statement parser (`parse_statement_adv`: assignments, blocks, tuples and
  lists, strings, function definitions and calls, `if`, `loop`, `for`,
  `switch`, `match`, enum variants and `.` chains), each with a grammar
  stated as spec functions that says what it gives for every text.
- `src/lsp`: converting between editor positions and byte offsets.
- `src/name_map.rs`, `src/ordered_union.rs`, `src/text.rs`,
  `src/comments.rs`: the small pieces the rest is built on.
- `app/`: what talks to the outside world: the handshake of a library process
  over standard input and output, its callbacks, and finding library files.

Every function in `src/` is verified, except the small wrappers marked
`#[verifier::external_body]` that call `colorize`, `line-span`, `regex` and a
few std functions; their contracts are trusted, and each says in its doc
comment what it claims of the function it calls.
