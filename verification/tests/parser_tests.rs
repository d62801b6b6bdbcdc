use jay_analyzer::analysis::{read_file, supported_source, Analysis};
use jay_analyzer::evaluator::EvalOutcome;
use jay_analyzer::grammar::generate_tokens;
use jay_analyzer::lexer::{Lexer, Token, TokenType};
use jay_analyzer::parser::{
    accept_outcome, bool_string, condition_value, value_text, FailureKind, IfStatement, Parser,
};

fn analyse(text: &str) -> Analysis {
    let content = text.to_string();
    assert!(supported_source(&content));
    read_file(&content)
}

fn parser_over(text: &str) -> Parser {
    let g = generate_tokens();
    let tokens = Lexer::build(&g).read_file_lines(&text.to_string()).unwrap();
    Parser::build(&g, &tokens)
}

fn value_of(p: &Parser, name: &str) -> Option<String> {
    p.symbol_table.get(&name.to_string()).cloned()
}

fn tok(v: &str) -> Token {
    Token { value: v.to_string(), column: 0, line: 1, token_type: TokenType::Identifier }
}

#[test]
fn assignment_is_evaluated_and_stored() {
    let mut p = parser_over("void main() { int x; x = 5 + 3; }");
    assert!(p.run().is_ok());
    assert_eq!(value_of(&p, "x").unwrap(), "8");
    assert!(p.file_tokens.is_empty());
    assert!(p.output.contains("after declarations:\n \n"));
}

#[test]
fn analysis_lists_tokens_then_runs() {
    let a = analyse("void main() { int x; x = 5 + 3; }");
    assert!(a.failure.is_none());
    assert!(a.remaining.is_empty());
    assert!(a.output.starts_with("void main ( ) { int x ; x = 5 + 3 ; } \n"));
    assert!(a.output.contains("Variable"));
    assert!(a.output.contains("Valor"));
    assert!(a.output.contains("│ x        │ 8     │"));
    assert!(a.output.contains("after declarations:\n \n\n"));
}

#[test]
fn unassigned_variables_are_not_shown() {
    let mut p = parser_over("void main() { int x, y; x = 1; }");
    assert!(p.run().is_ok());
    assert_eq!(value_of(&p, "y").unwrap(), "");
    assert!(p.output.contains("│ x        │ 1     │"));
    assert!(!p.output.contains("│ y"));
}

#[test]
fn integer_arithmetic_follows_the_evaluator() {
    let mut p = parser_over("void main() { int a, b, c; a = 7 / 2; b = 0 - 5; c = a * b; }");
    assert!(p.run().is_ok());
    assert_eq!(value_of(&p, "a").unwrap(), "3");
    assert_eq!(value_of(&p, "b").unwrap(), "-5");
    assert_eq!(value_of(&p, "c").unwrap(), "-15");
}

#[test]
fn relations_give_booleans() {
    let mut p = parser_over("void main() { boolean b, c; b = 3 < 4; c = !b; }");
    assert!(p.run().is_ok());
    assert_eq!(value_of(&p, "b").unwrap(), "true");
    assert_eq!(value_of(&p, "c").unwrap(), "false");
}

#[test]
fn parenthesized_expression_is_evaluated() {
    let mut p = parser_over("void main() { int x; x = ( 1 + 2 ) * 3; }");
    assert!(p.run().is_ok());
    assert_eq!(value_of(&p, "x").unwrap(), "9");
}

#[test]
fn if_with_true_condition_runs_its_statement() {
    let mut p = parser_over("void main() { int x; x = 0; if (x == 0) x = 1; }");
    assert!(p.run().is_ok());
    assert_eq!(value_of(&p, "x").unwrap(), "1");
    assert!(p.output.contains("\nmain body\nx = 1 ; } if: true\n"));
    assert!(!p.if_statement.is_active);
}

#[test]
fn if_with_false_condition_skips_its_statement() {
    let mut p = parser_over("void main() { int x; x = 0; if (x != 0) x = 1; }");
    assert!(p.run().is_ok());
    assert_eq!(value_of(&p, "x").unwrap(), "0");
    assert!(p.output.contains("if: false\n"));
}

#[test]
fn else_branch_runs_when_condition_is_false() {
    let mut p = parser_over("void main() { int x; if (false) x = 1; else x = 2; }");
    assert!(p.run().is_ok());
    assert_eq!(value_of(&p, "x").unwrap(), "2");
}

#[test]
fn then_branch_runs_when_condition_is_true() {
    let mut p = parser_over("void main() { int x; if (true) { x = 1; } else { x = 2; } }");
    assert!(p.run().is_ok());
    assert_eq!(value_of(&p, "x").unwrap(), "1");
}

#[test]
fn nested_if_without_else_is_run() {
    let mut p = parser_over("void main() { int x; x = 0; if (true) { if (x == 0) { x = 5; } } }");
    assert!(p.run().is_ok());
    assert_eq!(value_of(&p, "x").unwrap(), "5");
}

#[test]
fn while_runs_its_statement_once() {
    let mut p = parser_over("void main() { boolean b; b = true; while (b) b = false; }");
    assert!(p.run().is_ok());
    assert_eq!(value_of(&p, "b").unwrap(), "false");
}

#[test]
fn missing_void_is_a_syntax_error_on_line_one() {
    let a = analyse("int x;");
    let f = a.failure.unwrap();
    assert_eq!(f.line, 1);
    assert!(matches!(f.kind, FailureKind::Syntax));
    assert_eq!(a.output, "int x ; ");
}

#[test]
fn redeclaration_is_reported() {
    let a = analyse("void main() {\nint x;\nint x;\n}");
    let f = a.failure.unwrap();
    assert_eq!(f.line, 3);
    match f.kind {
        FailureKind::AlreadyDeclared(name) => assert_eq!(name, "x"),
        _ => panic!("wrong failure"),
    }
}

#[test]
fn assignment_to_undeclared_variable_is_reported() {
    let a = analyse("void main() {\ny = 1;\n}");
    let f = a.failure.unwrap();
    assert_eq!(f.line, 2);
    match f.kind {
        FailureKind::UndeclaredVariable(name) => assert_eq!(name, "y"),
        _ => panic!("wrong failure"),
    }
}

#[test]
fn use_of_unassigned_variable_is_reported() {
    let a = analyse("void main() {\nint x; int y;\nx = y + 1;\n}");
    let f = a.failure.unwrap();
    assert_eq!(f.line, 3);
    assert!(matches!(f.kind, FailureKind::UnassignedVariable));
}

#[test]
fn non_boolean_condition_is_reported() {
    let a = analyse("void main() {\nint x;\nif (5) x = 1;\n}");
    let f = a.failure.unwrap();
    assert_eq!(f.line, 3);
    assert!(matches!(f.kind, FailureKind::ExpectedBoolean));
    let b = analyse("void main() {\nint x;\nwhile (1 + 1) x = 1;\n}");
    assert!(matches!(b.failure.unwrap().kind, FailureKind::ExpectedBoolean));
}

#[test]
fn expression_the_evaluator_rejects_is_reported() {
    let a = analyse("void main() {\nboolean b;\nb = true + 1;\n}");
    let f = a.failure.unwrap();
    assert_eq!(f.line, 3);
    match f.kind {
        FailureKind::InvalidExpression(text) => assert_eq!(text, "true+1"),
        _ => panic!("wrong failure"),
    }
}

#[test]
fn tokens_after_the_program_are_a_syntax_error() {
    let a = analyse("void main() { }\nx");
    let f = a.failure.unwrap();
    assert_eq!(f.line, 2);
    assert!(matches!(f.kind, FailureKind::Syntax));
}

#[test]
fn chained_operators_of_one_level_are_read() {
    let mut p = parser_over("void main() { boolean b; int x; b = true || false || true; x = 1 + 2 + 3 - 4; }");
    assert!(p.run().is_ok());
    assert_eq!(value_of(&p, "b"), Some("true".to_string()));
    assert_eq!(value_of(&p, "x"), Some("2".to_string()));
}

#[test]
fn operator_without_right_operand_is_a_syntax_error() {
    let a = analyse("void main() {\nint x;\nx = 1 + 2 + ;\n}");
    let f = a.failure.unwrap();
    assert_eq!(f.line, 3);
    assert!(matches!(f.kind, FailureKind::Syntax));
}

#[test]
fn missing_closing_bracket_is_a_syntax_error() {
    let a = analyse("void main() {\nint x;\nx = 1;\n");
    assert!(matches!(a.failure.unwrap().kind, FailureKind::Syntax));
}

#[test]
fn identifier_may_begin_with_n_tilde() {
    let a = analyse("void main() { int ñame; ñame = 4; }");
    assert!(a.failure.is_none());
    let mut p = parser_over("void main() { int ñame; ñame = 4; }");
    assert!(p.run().is_ok());
    assert_eq!(value_of(&p, "ñame"), Some("4".to_string()));
    let g = generate_tokens();
    let mut q = Parser::build(&g, &vec![Token::build(&"ñx".to_string(), TokenType::Identifier, 1)]);
    assert_eq!(q.expression().ok(), Some(true));
    assert_eq!(q.current_expresion, "ñx ");
}

#[test]
fn expression_reads_every_operator_and_records_text() {
    let g = generate_tokens();
    let tokens = vec![tok("1"), tok("+"), tok("2"), tok("+"), tok("3"), tok(";")];
    let mut p = Parser::build(&g, &tokens);
    assert_eq!(p.addition().ok(), Some(true));
    assert_eq!(p.current_expresion, "1 + 2 + 3 ");
    assert_eq!(p.file_tokens.len(), 1);
    assert_eq!(p.file_tokens[0].value, ";");
}

#[test]
fn variables_named_like_evaluator_functions_are_substituted() {
    let mut p = parser_over("void main() { int shl, x; shl = 64; x = shl + 1; }");
    assert!(p.run().is_ok());
    assert_eq!(value_of(&p, "x"), Some("65".to_string()));
}

#[test]
fn any_value_text_is_handed_to_the_evaluator() {
    let g = generate_tokens();
    let tokens = vec![tok("x"), tok("="), tok("y"), tok(";")];
    let mut p = Parser::build(&g, &tokens);
    p.symbol_table.insert("x".to_string(), String::new());
    p.symbol_table.insert("y".to_string(), "2.5".to_string());
    match p.assignment() {
        Err(f) => assert!(matches!(f.kind, FailureKind::InvalidValue)),
        Ok(_) => panic!("a float is not a value of a variable"),
    }
}

#[test]
fn evaluator_outcomes_are_accepted_or_rejected() {
    assert!(matches!(accept_outcome(EvalOutcome::Int(3), "3".to_string()), Ok(EvalOutcome::Int(3))));
    match accept_outcome(EvalOutcome::Failed, "1/0".to_string()) {
        Err(FailureKind::InvalidExpression(t)) => assert_eq!(t, "1/0"),
        _ => panic!("wrong outcome"),
    }
    assert_eq!(condition_value(EvalOutcome::Boolean(false)), Some(false));
    assert_eq!(condition_value(EvalOutcome::Int(1)), None);
    assert_eq!(condition_value(EvalOutcome::OtherValue), None);
}

#[test]
fn rules_that_do_not_match_consume_nothing() {
    let g = generate_tokens();
    let tokens = vec![tok(";")];
    let mut p = Parser::build(&g, &tokens);
    assert_eq!(p.expression().ok(), Some(false));
    assert_eq!(p.conjunction().ok(), Some(false));
    assert_eq!(p.relation().ok(), Some(false));
    assert_eq!(p.addition().ok(), Some(false));
    assert_eq!(p.term().ok(), Some(false));
    assert_eq!(p.negation().ok(), Some(false));
    assert_eq!(p.factor().ok(), Some(false));
    assert_eq!(p.assignment().ok(), Some(false));
    assert_eq!(p.if_statement().ok(), Some(false));
    assert_eq!(p.while_statement().ok(), Some(false));
    assert_eq!(p.file_tokens.len(), 1);
}

#[test]
fn negation_without_factor_is_a_syntax_error() {
    let g = generate_tokens();
    let tokens = vec![tok("!"), tok(";")];
    let mut p = Parser::build(&g, &tokens);
    let f = p.negation().err().unwrap();
    assert!(matches!(f.kind, FailureKind::Syntax));
}

#[test]
fn literal_checks() {
    let g = generate_tokens();
    let mut p = Parser::build(&g, &vec![tok("true")]);
    assert!(p.boolean());
    assert!(p.literal());
    assert!(!p.integer());
    let mut q = Parser::build(&g, &vec![tok("123")]);
    assert!(q.integer());
    assert!(q.literal());
    assert!(!q.boolean());
    let mut r = Parser::build(&g, &vec![tok("x1")]);
    assert!(!r.literal());
}

#[test]
fn assignment_inside_branch_is_only_recorded() {
    let g = generate_tokens();
    let tokens = vec![tok("x"), tok("="), tok("1"), tok(";")];
    let mut p = Parser::build(&g, &tokens);
    p.symbol_table.insert("x".to_string(), String::new());
    p.if_statement.is_active = true;
    assert_eq!(p.assignment().ok(), Some(true));
    assert_eq!(p.if_statement.body.len(), 4);
    assert_eq!(value_of(&p, "x").unwrap(), "");
    assert!(p.current_expresion.is_empty());
}

#[test]
fn execute_if_body_puts_back_the_selected_branch() {
    let g = generate_tokens();
    let mut p = Parser::build(&g, &vec![tok("}")]);
    p.if_statement.exp = true;
    p.if_statement.is_active = true;
    p.if_statement.body = vec![tok("a"), tok(";")];
    p.if_statement.else_body = vec![tok("b")];
    p.execute_if_body();
    let vals: Vec<String> = p.file_tokens.iter().map(|t| t.value.clone()).collect();
    assert_eq!(vals, vec!["a", ";", "}"]);
    assert!(!p.if_statement.is_active);
    assert!(p.if_statement.body.is_empty());
    assert!(p.if_statement.else_body.is_empty());

    let mut q = Parser::build(&g, &vec![tok("}")]);
    q.if_statement.exp = false;
    q.if_statement.body = vec![tok("a")];
    q.if_statement.else_body = vec![tok("b"), tok(";")];
    q.execute_if_body();
    let vals: Vec<String> = q.file_tokens.iter().map(|t| t.value.clone()).collect();
    assert_eq!(vals, vec!["b", ";", "}"]);
}

#[test]
fn execute_else_body_keeps_tokens_when_condition_holds() {
    let g = generate_tokens();
    let mut p = Parser::build(&g, &vec![tok("}")]);
    p.if_statement.exp = true;
    p.if_statement.else_body = vec![tok("b")];
    p.execute_else_body();
    assert_eq!(p.file_tokens.len(), 1);
    assert!(!p.if_statement.exp);
    assert!(p.if_statement.else_body.is_empty());
}

#[test]
fn if_statement_build_is_inactive() {
    let s = IfStatement::build();
    assert!(!s.exp && !s.is_active && !s.else_is_active);
    assert!(s.body.is_empty() && s.else_body.is_empty());
}

#[test]
fn evaluated_values_become_text() {
    assert_eq!(value_text(EvalOutcome::Int(-12)).unwrap(), "-12");
    assert_eq!(value_text(EvalOutcome::Int(i64::MIN)).unwrap(), i64::MIN.to_string());
    assert_eq!(value_text(EvalOutcome::Boolean(true)).unwrap(), "true");
    assert!(value_text(EvalOutcome::OtherValue).is_none());
    assert!(value_text(EvalOutcome::Failed).is_none());
    assert_eq!(bool_string(false), "false");
}

#[test]
fn show_writes_remaining_tokens_quoted() {
    let g = generate_tokens();
    let mut p = Parser::build(&g, &vec![tok("a"), tok("}")]);
    p.show();
    assert_eq!(p.output, "\"a\" \"}\" ");
}

#[test]
fn else_after_nested_if_belongs_to_the_inner_if() {
    let mut p = parser_over("void main() { int x; if (true) if (true) x = 1; else x = 2; }");
    assert!(p.run().is_ok());
    assert_eq!(value_of(&p, "x").unwrap(), "1");
}

#[test]
fn while_inside_a_branch_still_checks_its_condition() {
    let a = analyse("void main() {\nint x;\nif (true) while (x == 1) x = 2;\n}");
    assert!(matches!(a.failure.unwrap().kind, FailureKind::UnassignedVariable));
}

#[test]
fn non_ascii_identifier_after_the_program_is_a_syntax_error() {
    let content = "void main() { }\nñame".to_string();
    assert!(supported_source(&content));
    let a = read_file(&content);
    let f = a.failure.unwrap();
    assert_eq!(f.line, 2);
    assert!(matches!(f.kind, FailureKind::Syntax));
}
