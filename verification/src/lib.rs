//! Lexical and syntactic analysis of Jay programs: a lexer that turns
//! source text into tokens, and a recursive-descent parser that checks a
//! program's syntax, keeps its symbol table and runs its assignments and
//! `if` statements.
pub mod analysis;
pub mod evaluator;
pub mod grammar;
pub mod lexer;
pub mod parse_laws;
pub mod parse_spec;
pub mod parser;
pub mod string_table;
pub mod table_view;
pub mod text;
