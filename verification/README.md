# jay_analyzer

Lexical and syntactic analysis of programs in Jay, a small teaching
language (`void main() { declarations statements }` with `int`/`boolean`
variables, assignments, `if`/`else` and `while`).

- `text`: whitespace, trimming, lines, words, comments, decimal numbers.
- `string_table`: an insertion-ordered string map (grammar and symbol table).
- `grammar`: Jay's terminal symbols and their categories.
- `lexer`: source text to tokens, line by line.
- `parse_spec`: the parser's rules as transitions of an abstract state.
- `parser`: the recursive-descent parser, proved to follow `parse_spec`.
- `evaluator`, `table_view`: expression evaluation (`evalexpr`) and table
  drawing (`tabled`).
- `analysis`: a whole run over a source text.

`app/main.rs` reads `FUENTE.jay` from the current directory and prints what
the analysis produced.
