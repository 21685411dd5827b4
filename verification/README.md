# jane

A small proof assistant for Peano arithmetic: terms and formulas, inference rules that
derive formulas from formulas, a lexer and a parser for a textual syntax, and an
interactive session that records a proof line by line.

Layout:

- `src/` — the library, verified with Verus.
  - `ast.rs`: terms, formulas, the inference rules, substitution and the five axioms.
  - `display.rs`: printed forms of terms, formulas and numbers; the list of axioms.
  - `token.rs`, `lexer.rs`: tokens and the lexer.
  - `parser.rs`: the grammar as spec functions, the parser, and the proof that it reads
    back every term and formula written as tokens of its input syntax.
  - `text.rs`: words of a command line, reading numbers, comparing words.
  - `repl.rs`: the session: its state, the meaning of every command, and its laws.
  - `laws.rs`: laws of the inference rules and of numbers, and the proof that the printed
    form of a term made of `0`, variables, `S` and `+` lexes and parses back to the term.
  - `error.rs`: the error type of reading a proof text.
- `tests/` — tests of the library.
- `app/` — the interactive program (standard input and output) and the C interface.
