# lang_parser

A verified recursive-descent parser for a small imperative language. It reads a
stream of tokens and builds a syntax tree: variable declarations (`def`, `const`),
function definitions (`fun`, `extern fun`), `break`/`continue`, and arithmetic
expressions, in which `*`, `/` and `%` bind tighter than `+` and `-` and operators
of one level group from the left. Every parsing function is proved, with Verus, to compute exactly
what the grammar in `src/grammar.rs` says, and never to panic.

The statement forms whose parsers are not part of this library are refused with
`ParseError::Unsupported` (carrying the token that starts them) rather than turned
into a node: type definitions (`type`), conditionals (`if`), loops (`loop`),
`return`, `mem`, `struct` definitions, `include`, function calls, assignments
(including array-element and dereferencing assignments) and struct literals on the
right of a declaration.

A comment token where a statement should start would be read forever (it is
never consumed); the functions that read programs require input that does not
lead there, which every stream without comment tokens satisfies.

Layout:

- `src/types.rs`, `src/tokens.rs`, `src/keywords.rs`: types, tokens and keywords.
- `src/lexer.rs`: a cursor over a token stream.
- `src/variable.rs`, `src/ast.rs`: syntax-tree nodes and their mathematical forms.
- `src/grammar.rs`: the grammar as spec functions over the parser's state.
- `src/parser.rs`, `src/parse_declaration.rs`, `src/parse_function_def.rs`,
  `src/parse_expression.rs`: the parser, each function with its contract.
- `src/laws.rs`: laws of the parser: token equality, the function table, the
  order of statements in a program, commas in parameter lists, and that streams
  without comments are always read to an end.
- `app/`: error reporting that prints and exits.
- `tests/`: tests on concrete token streams.
