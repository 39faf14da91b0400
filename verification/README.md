# C1 parser

A lexer and a recursive-descent parser for C1, a small C-like teaching
language, verified with Verus.

- `src/token.rs`: the token kinds and their names.
- `src/lexer.rs`: the token grammar as spec functions over the characters of
  the text (`lex`), and `C1Lexer`, proved to produce exactly `lex(text)`.
  Blanks, `//` comments and `/* */` comments (whose body holds neither `*`
  nor `/`) are skipped; the longest token wins; a character that starts no
  token is an `Error` token. Lines count from 1.
- `src/message.rs`: the text of the error messages.
- `src/grammar.rs`: what each parsing method does, as a function from a
  position in the token sequence to a `Run`: its result and where it leaves
  the current token, or `Panic` where it would ask for a token that is not
  there.
- `src/parser.rs`: `C1Parser`; every method is proved to end as its `Run`
  says, never to move back, and to eat a token whenever it succeeds.
  `try_parse` returns `None` exactly where parsing panics; `parse` leaves
  those texts out.
- `src/laws.rs`: properties of the parser and the lexer over all inputs.
