use jay_analyzer::grammar::generate_tokens;
use jay_analyzer::lexer::{Lexer, Token, TokenType};
use jay_analyzer::string_table::StringTable;

fn lex(text: &str) -> Vec<Token> {
    let lexer = Lexer::build(&generate_tokens());
    lexer.read_file_lines(&text.to_string()).unwrap()
}

fn values(tokens: &[Token]) -> Vec<String> {
    tokens.iter().map(|t| t.get_value()).collect()
}

#[test]
fn token_build_sets_fields() {
    let t = Token::build(&"abc".to_string(), TokenType::Identifier, 3);
    assert_eq!(t.get_value(), "abc");
    assert_eq!(t.get_line(), 3);
    assert_eq!(t.column, 0);
    assert_eq!(t.token_type, TokenType::Identifier);
}

#[test]
fn token_clone_keeps_fields() {
    let t = Token::build(&"x".to_string(), TokenType::Separator, 9);
    let c = t.clone();
    assert_eq!(c.value, "x");
    assert_eq!(c.line, 9);
    assert_eq!(c.token_type, TokenType::Separator);
}

#[test]
fn assignment_word_splits_into_tokens() {
    let tokens = lex("x=5;");
    assert_eq!(values(&tokens), vec!["x", "=", "5", ";"]);
    let kinds: Vec<TokenType> = tokens.iter().map(|t| t.token_type).collect();
    assert_eq!(
        kinds,
        vec![TokenType::Identifier, TokenType::Operator, TokenType::Identifier, TokenType::Separator]
    );
    assert!(tokens.iter().all(|t| t.line == 1 && t.column == 0));
}

#[test]
fn two_character_operator_stays_whole() {
    assert_eq!(values(&lex("a>=b")), vec!["a", ">=", "b"]);
    assert_eq!(values(&lex("p&&q")), vec!["p", "&&", "q"]);
}

#[test]
fn keyword_before_separator_is_keyword() {
    let tokens = lex("while(x)");
    assert_eq!(values(&tokens), vec!["while", "(", "x", ")"]);
    assert_eq!(tokens[0].token_type, TokenType::KeyWord);
    assert_eq!(tokens[2].token_type, TokenType::Identifier);
    assert_eq!(tokens[3].token_type, TokenType::Separator);
}

#[test]
fn operator_before_separator_is_emitted() {
    let tokens = lex("x=(");
    assert_eq!(values(&tokens), vec!["x", "=", "("]);
    assert_eq!(tokens[1].token_type, TokenType::Operator);
}

#[test]
fn lone_operator_word_is_an_operator() {
    let tokens = lex("x = 1");
    assert_eq!(values(&tokens), vec!["x", "=", "1"]);
    assert_eq!(tokens[1].token_type, TokenType::Operator);
    let lexer = Lexer::build(&generate_tokens());
    let t = lexer.tokenizer("=", 1).unwrap();
    assert_eq!(t.len(), 1);
    assert_eq!(t[0].value, "=");
    assert_eq!(t[0].token_type, TokenType::Operator);
}

#[test]
fn operator_runs_split_into_grammar_operators() {
    let tokens = lex("a&&!b");
    assert_eq!(values(&tokens), vec!["a", "&&", "!", "b"]);
    assert_eq!(tokens[1].token_type, TokenType::Operator);
    assert_eq!(tokens[2].token_type, TokenType::Operator);
    assert_eq!(tokens[3].token_type, TokenType::Identifier);
    assert_eq!(values(&lex("x==-1")), vec!["x", "==", "-", "1"]);
    assert_eq!(values(&lex("x<=y")), vec!["x", "<=", "y"]);
    assert_eq!(values(&lex("!=!")), vec!["!=", "!"]);
}

#[test]
fn word_ending_in_separator_splits_cleanly() {
    let lexer = Lexer::build(&generate_tokens());
    let whole = values(&lexer.tokenizer("f(x);y=2", 1).unwrap());
    let mut parts = values(&lexer.tokenizer("f(x);", 1).unwrap());
    parts.extend(values(&lexer.tokenizer("y=2", 1).unwrap()));
    assert_eq!(whole, parts);
    let joined = lexer.tokenizer("x;while", 2).unwrap();
    let mut split = lexer.tokenizer("x;", 2).unwrap();
    split.extend(lexer.tokenizer("while", 2).unwrap());
    assert_eq!(values(&joined), values(&split));
    let kinds_a: Vec<TokenType> = joined.iter().map(|t| t.token_type).collect();
    let kinds_b: Vec<TokenType> = split.iter().map(|t| t.token_type).collect();
    assert_eq!(kinds_a, kinds_b);
    assert_eq!(joined[2].token_type, TokenType::KeyWord);
}

#[test]
fn scanner_lexes_word_lists_piecewise() {
    let lexer = Lexer::build(&generate_tokens());
    let all = values(&lexer.scanner(&vec!["int", "x,y;"], 3).unwrap());
    let mut parts = values(&lexer.scanner(&vec!["int"], 3).unwrap());
    parts.extend(values(&lexer.scanner(&vec!["x,y;"], 3).unwrap()));
    assert_eq!(all, parts);
    assert!(lexer.scanner(&vec![], 3).unwrap().is_empty());
}

#[test]
fn comment_lines_and_trailing_comments_add_no_tokens() {
    let plain = lex("int x;\nx = 1;");
    let commented = lex("int x; // declared\n\n// a comment\nx = 1;");
    let inserted = lex("int x;\n   // inserted\nx = 1;");
    assert_eq!(values(&plain), values(&commented));
    assert_eq!(values(&plain), values(&inserted));
    let lines_a: Vec<u32> = plain.iter().map(|t| t.line).collect();
    let lines_b: Vec<u32> = commented.iter().map(|t| t.line).collect();
    assert_eq!(lines_a, lines_b);
}

#[test]
fn unclassified_characters_are_dropped() {
    assert_eq!(values(&lex("a@b")), vec!["ab"]);
    assert_eq!(values(&lex("x=1.5;")), vec!["x", "=", "15", ";"]);
}

#[test]
fn comments_and_blank_lines_are_skipped_and_not_numbered() {
    let tokens = lex("\n// comment\nint x;\n\n  x = 1; // set\n");
    assert_eq!(values(&tokens), vec!["int", "x", ";", "x", "=", "1", ";"]);
    let lines: Vec<u32> = tokens.iter().map(|t| t.line).collect();
    assert_eq!(lines, vec![1, 1, 1, 2, 2, 2, 2]);
    assert_eq!(tokens[0].token_type, TokenType::KeyWord);
}

#[test]
fn carriage_returns_and_tabs_are_whitespace() {
    let tokens = lex("int\tx;\r\nx = 2;\r\n");
    assert_eq!(values(&tokens), vec!["int", "x", ";", "x", "=", "2", ";"]);
    assert_eq!(tokens[3].line, 2);
}

#[test]
fn empty_source_has_no_tokens() {
    assert!(lex("").is_empty());
    assert!(lex("   \n // only a comment \n").is_empty());
}

#[test]
fn tokenizer_keeps_whole_keyword() {
    let lexer = Lexer::build(&generate_tokens());
    let tokens = lexer.tokenizer("if", 4).unwrap();
    assert_eq!(tokens.len(), 1);
    assert_eq!(tokens[0].value, "if");
    assert_eq!(tokens[0].token_type, TokenType::KeyWord);
    assert_eq!(tokens[0].line, 4);
}

#[test]
fn scanner_tokenizes_each_word() {
    let lexer = Lexer::build(&generate_tokens());
    let tokens = lexer.scanner(&vec!["int", "x;"], 2).unwrap();
    assert_eq!(values(&tokens), vec!["int", "x", ";"]);
    assert!(tokens.iter().all(|t| t.line == 2));
}

#[test]
fn tokens_concatenate_to_the_classified_characters() {
    let lexer = Lexer::build(&generate_tokens());
    let word = "a1+(b2)*c!=d#";
    let tokens = lexer.tokenizer(word, 1).unwrap();
    let joined: String = tokens.iter().map(|t| t.value.clone()).collect();
    assert_eq!(joined, "a1+(b2)*c!=d");
    assert!(tokens.iter().all(|t| !t.value.is_empty()));
}

#[test]
fn grammar_table_holds_jay_terminals() {
    let g = generate_tokens();
    assert_eq!(g.len(), 95);
    assert_eq!(g.get(&"while".to_string()).unwrap(), "WHILE_KEYWORD");
    assert_eq!(g.get(&">=".to_string()).unwrap(), "GREATER_OR_EQUAL_OPERATOR");
    assert_eq!(g.get(&"ñ".to_string()).unwrap(), "LETTER");
    assert!(g.get(&"@".to_string()).is_none());
    assert!(g.is_of_type(&"==".to_string(), "OPERATOR"));
    assert!(!g.is_of_type(&"x".to_string(), "KEYWORD"));
}

#[test]
fn string_table_insert_replaces_value() {
    let mut t = StringTable::new();
    t.insert("a".to_string(), "1".to_string());
    t.insert("b".to_string(), "2".to_string());
    t.insert("a".to_string(), "3".to_string());
    assert_eq!(t.len(), 2);
    assert_eq!(t.get(&"a".to_string()).unwrap(), "3");
    assert_eq!(t.get(&"b".to_string()).unwrap(), "2");
    let (k, v) = t.entry_at(0);
    assert_eq!((k.as_str(), v.as_str()), ("a", "3"));
}

#[test]
fn custom_grammar_drives_the_lexer() {
    let mut g = StringTable::new();
    g.insert("a".to_string(), "LETTER".to_string());
    g.insert(";".to_string(), "SEPARATOR".to_string());
    g.insert("aa".to_string(), "SPECIAL_KEYWORD".to_string());
    let lexer = Lexer::build(&g);
    let tokens = lexer.read_file_lines(&"aa;a b".to_string()).unwrap();
    assert_eq!(values(&tokens), vec!["aa", ";", "a"]);
    assert_eq!(tokens[0].token_type, TokenType::KeyWord);
}

#[test]
fn grammar_table_has_one_entry_per_symbol() {
    let g = generate_tokens();
    assert_eq!(g.len(), 95);
    for i in 0..g.len() {
        for j in (i + 1)..g.len() {
            assert_ne!(g.entry_at(i).0, g.entry_at(j).0);
        }
    }
    assert_eq!(g.get(&"ñ".to_string()), Some(&"LETTER".to_string()));
}
