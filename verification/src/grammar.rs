//! The table of Jay's terminal symbols: each lexeme with the category it
//! belongs to (`"while"` is a `WHILE_KEYWORD`, `"a"` a `LETTER`, ...).
use vstd::prelude::*;

use crate::string_table::{distinct_keys, is_of_kind, law_entries_are_keys, StringTable};
use crate::text::has_piece;

verus! {

/// The terminal symbols of Jay and their categories.
pub open spec fn jay_grammar() -> Map<Seq<char>, Seq<char>> {
    map![
        "="@ => "ASSIGN_OPERATOR"@,
        "+"@ => "PLUS_OPERATOR"@,
        "-"@ => "MINUS_OPERATOR"@,
        "*"@ => "MULT_OPERATOR"@,
        "/"@ => "DIVISION_OPERATOR"@,
        ">"@ => "GREATER_THAN_OPERATOR"@,
        ">="@ => "GREATER_OR_EQUAL_OPERATOR"@,
        "=="@ => "EQUAL_OPERATOR"@,
        "!="@ => "DIFFERENT_OPERATOR"@,
        "<"@ => "LESS_THAN_OPERATOR"@,
        "<="@ => "LESS_OR_EQUAL_OPERATOR"@,
        "&&"@ => "AND_OPERATOR"@,
        "&"@ => "AND_SOLO_OPERATOR"@,
        "||"@ => "OR_OPERATOR"@,
        "|"@ => "VERTICAL_LINE_OPERATOR"@,
        "!"@ => "NOT_OPERATOR"@,
        "("@ => "OPEN_PARENTHESIS_SEPARATOR"@,
        ")"@ => "CLOSE_PARENTHESIS_SEPARATOR"@,
        "{"@ => "OPEN_BRACKET_SEPARATOR"@,
        "}"@ => "CLOSE_BRACKET_SEPARATOR"@,
        ";"@ => "SEMICOLON_SEPARATOR"@,
        ","@ => "COMMA_SEPARATOR"@,
        "false"@ => "FALSE_KEYWORD"@,
        "true"@ => "TRUE_KEYWORD"@,
        "boolean"@ => "BOOLEAN_KEYWORD"@,
        "int"@ => "INT_KEYWORD"@,
        "void"@ => "VOID_KEYWORD"@,
        "if"@ => "IF_KEYWORD"@,
        "else"@ => "ELSE_KEYWORD"@,
        "main"@ => "MAIN_KEYWORD"@,
        "while"@ => "WHILE_KEYWORD"@,
        "a"@ => "LETTER"@,
        "b"@ => "LETTER"@,
        "c"@ => "LETTER"@,
        "d"@ => "LETTER"@,
        "e"@ => "LETTER"@,
        "f"@ => "LETTER"@,
        "g"@ => "LETTER"@,
        "h"@ => "LETTER"@,
        "i"@ => "LETTER"@,
        "j"@ => "LETTER"@,
        "k"@ => "LETTER"@,
        "l"@ => "LETTER"@,
        "m"@ => "LETTER"@,
        "n"@ => "LETTER"@,
        "ñ"@ => "LETTER"@,
        "o"@ => "LETTER"@,
        "p"@ => "LETTER"@,
        "q"@ => "LETTER"@,
        "r"@ => "LETTER"@,
        "s"@ => "LETTER"@,
        "t"@ => "LETTER"@,
        "u"@ => "LETTER"@,
        "v"@ => "LETTER"@,
        "w"@ => "LETTER"@,
        "x"@ => "LETTER"@,
        "y"@ => "LETTER"@,
        "z"@ => "LETTER"@,
        "A"@ => "LETTER"@,
        "B"@ => "LETTER"@,
        "C"@ => "LETTER"@,
        "D"@ => "LETTER"@,
        "E"@ => "LETTER"@,
        "F"@ => "LETTER"@,
        "G"@ => "LETTER"@,
        "H"@ => "LETTER"@,
        "I"@ => "LETTER"@,
        "J"@ => "LETTER"@,
        "K"@ => "LETTER"@,
        "L"@ => "LETTER"@,
        "M"@ => "LETTER"@,
        "N"@ => "LETTER"@,
        "Ñ"@ => "LETTER"@,
        "O"@ => "LETTER"@,
        "P"@ => "LETTER"@,
        "Q"@ => "LETTER"@,
        "R"@ => "LETTER"@,
        "S"@ => "LETTER"@,
        "T"@ => "LETTER"@,
        "U"@ => "LETTER"@,
        "V"@ => "LETTER"@,
        "W"@ => "LETTER"@,
        "X"@ => "LETTER"@,
        "Y"@ => "LETTER"@,
        "Z"@ => "LETTER"@,
        "0"@ => "NUMBER"@,
        "1"@ => "NUMBER"@,
        "2"@ => "NUMBER"@,
        "3"@ => "NUMBER"@,
        "4"@ => "NUMBER"@,
        "5"@ => "NUMBER"@,
        "6"@ => "NUMBER"@,
        "7"@ => "NUMBER"@,
        "8"@ => "NUMBER"@,
        "9"@ => "NUMBER"@
    ]
}

/// In Jay's grammar `h` is a letter, not a digit.
pub proof fn lemma_h_is_a_letter()
    ensures
        jay_grammar().contains_key(seq!['h']),
        jay_grammar()[seq!['h']] == "LETTER"@,
        !is_of_kind(jay_grammar(), seq!['h'], "NUMBER"@),
{
    reveal_strlit("h");
    assert("h"@ =~= seq!['h']);
    reveal_strlit("i");
    assert("i"@[0] != 'h');
    reveal_strlit("j");
    assert("j"@[0] != 'h');
    reveal_strlit("k");
    assert("k"@[0] != 'h');
    reveal_strlit("l");
    assert("l"@[0] != 'h');
    reveal_strlit("m");
    assert("m"@[0] != 'h');
    reveal_strlit("n");
    assert("n"@[0] != 'h');
    reveal_strlit("ñ");
    assert("ñ"@[0] != 'h');
    reveal_strlit("o");
    assert("o"@[0] != 'h');
    reveal_strlit("p");
    assert("p"@[0] != 'h');
    reveal_strlit("q");
    assert("q"@[0] != 'h');
    reveal_strlit("r");
    assert("r"@[0] != 'h');
    reveal_strlit("s");
    assert("s"@[0] != 'h');
    reveal_strlit("t");
    assert("t"@[0] != 'h');
    reveal_strlit("u");
    assert("u"@[0] != 'h');
    reveal_strlit("v");
    assert("v"@[0] != 'h');
    reveal_strlit("w");
    assert("w"@[0] != 'h');
    reveal_strlit("x");
    assert("x"@[0] != 'h');
    reveal_strlit("y");
    assert("y"@[0] != 'h');
    reveal_strlit("z");
    assert("z"@[0] != 'h');
    reveal_strlit("A");
    assert("A"@[0] != 'h');
    reveal_strlit("B");
    assert("B"@[0] != 'h');
    reveal_strlit("C");
    assert("C"@[0] != 'h');
    reveal_strlit("D");
    assert("D"@[0] != 'h');
    reveal_strlit("E");
    assert("E"@[0] != 'h');
    reveal_strlit("F");
    assert("F"@[0] != 'h');
    reveal_strlit("G");
    assert("G"@[0] != 'h');
    reveal_strlit("H");
    assert("H"@[0] != 'h');
    reveal_strlit("I");
    assert("I"@[0] != 'h');
    reveal_strlit("J");
    assert("J"@[0] != 'h');
    reveal_strlit("K");
    assert("K"@[0] != 'h');
    reveal_strlit("L");
    assert("L"@[0] != 'h');
    reveal_strlit("M");
    assert("M"@[0] != 'h');
    reveal_strlit("N");
    assert("N"@[0] != 'h');
    reveal_strlit("Ñ");
    assert("Ñ"@[0] != 'h');
    reveal_strlit("O");
    assert("O"@[0] != 'h');
    reveal_strlit("P");
    assert("P"@[0] != 'h');
    reveal_strlit("Q");
    assert("Q"@[0] != 'h');
    reveal_strlit("R");
    assert("R"@[0] != 'h');
    reveal_strlit("S");
    assert("S"@[0] != 'h');
    reveal_strlit("T");
    assert("T"@[0] != 'h');
    reveal_strlit("U");
    assert("U"@[0] != 'h');
    reveal_strlit("V");
    assert("V"@[0] != 'h');
    reveal_strlit("W");
    assert("W"@[0] != 'h');
    reveal_strlit("X");
    assert("X"@[0] != 'h');
    reveal_strlit("Y");
    assert("Y"@[0] != 'h');
    reveal_strlit("Z");
    assert("Z"@[0] != 'h');
    reveal_strlit("0");
    assert("0"@[0] != 'h');
    reveal_strlit("1");
    assert("1"@[0] != 'h');
    reveal_strlit("2");
    assert("2"@[0] != 'h');
    reveal_strlit("3");
    assert("3"@[0] != 'h');
    reveal_strlit("4");
    assert("4"@[0] != 'h');
    reveal_strlit("5");
    assert("5"@[0] != 'h');
    reveal_strlit("6");
    assert("6"@[0] != 'h');
    reveal_strlit("7");
    assert("7"@[0] != 'h');
    reveal_strlit("8");
    assert("8"@[0] != 'h');
    reveal_strlit("9");
    assert("9"@[0] != 'h');
    reveal_strlit("LETTER");
    reveal_strlit("NUMBER");
    if has_piece("LETTER"@, "NUMBER"@) {
        let i = choose|i: int|
            0 <= i && i + "NUMBER"@.len() <= "LETTER"@.len() && #[trigger] "LETTER"@.subrange(
                i,
                i + "NUMBER"@.len(),
            ) == "NUMBER"@;
        assert(i == 0);
        assert("LETTER"@.subrange(0, 6)[0] == 'L');
    }
}

/// Jay's digits: the grammar classifies each of `0` to `9` as a `NUMBER`,
/// and none of them as a letter.
pub proof fn law_digits_are_numbers()
    ensures
        forall|c: char|
            '0' <= c <= '9' ==> {
                &&& jay_grammar().contains_key(seq![c])
                &&& jay_grammar()[seq![c]] == "NUMBER"@
                &&& is_of_kind(jay_grammar(), seq![c], "NUMBER"@)
                &&& !is_of_kind(jay_grammar(), seq![c], "LETTER"@)
            },
{
    reveal_strlit("0");
    assert("0"@ =~= seq!['0']);
    reveal_strlit("1");
    assert("1"@ =~= seq!['1']);
    reveal_strlit("2");
    assert("2"@ =~= seq!['2']);
    reveal_strlit("3");
    assert("3"@ =~= seq!['3']);
    reveal_strlit("4");
    assert("4"@ =~= seq!['4']);
    reveal_strlit("5");
    assert("5"@ =~= seq!['5']);
    reveal_strlit("6");
    assert("6"@ =~= seq!['6']);
    reveal_strlit("7");
    assert("7"@ =~= seq!['7']);
    reveal_strlit("8");
    assert("8"@ =~= seq!['8']);
    reveal_strlit("9");
    assert("9"@ =~= seq!['9']);
    reveal_strlit("LETTER");
    reveal_strlit("NUMBER");
    assert("NUMBER"@.subrange(0int, 0int + "NUMBER"@.len()) =~= "NUMBER"@);
    assert(has_piece("NUMBER"@, "NUMBER"@));
    if has_piece("NUMBER"@, "LETTER"@) {
        let i = choose|i: int|
            0 <= i && i + "LETTER"@.len() <= "NUMBER"@.len() && #[trigger] "NUMBER"@.subrange(
                i,
                i + "LETTER"@.len(),
            ) == "LETTER"@;
        assert(i == 0);
        assert("NUMBER"@.subrange(0, 6)[0] == 'N');
    }
    assert forall|c: char| '0' <= c <= '9' implies {
        &&& jay_grammar().contains_key(seq![c])
        &&& jay_grammar()[seq![c]] == "NUMBER"@
    } by {
        if c == '0' {
            assert(seq![c] == "0"@);
        } else if c == '1' {
            assert(seq![c] == "1"@);
        } else if c == '2' {
            assert(seq![c] == "2"@);
        } else if c == '3' {
            assert(seq![c] == "3"@);
        } else if c == '4' {
            assert(seq![c] == "4"@);
        } else if c == '5' {
            assert(seq![c] == "5"@);
        } else if c == '6' {
            assert(seq![c] == "6"@);
        } else if c == '7' {
            assert(seq![c] == "7"@);
        } else if c == '8' {
            assert(seq![c] == "8"@);
        } else if c == '9' {
            assert(seq![c] == "9"@);
        }
    }
}

/// Jay's letters: the grammar classifies each of `a` to `z`, `A` to `Z`,
/// `ñ` and `Ñ` as a `LETTER`.
#[verifier::spinoff_prover]
#[verifier::rlimit(100)]
pub proof fn law_letters_are_letters()
    ensures
        forall|c: char|
            ('a' <= c <= 'z' || 'A' <= c <= 'Z' || c == 'ñ' || c == 'Ñ') ==> {
                &&& jay_grammar().contains_key(seq![c])
                &&& jay_grammar()[seq![c]] == "LETTER"@
            },
{
    reveal_strlit("=");
    assert("="@.len() == 1 && "="@[0] == '=');
    reveal_strlit("+");
    assert("+"@.len() == 1 && "+"@[0] == '+');
    reveal_strlit("-");
    assert("-"@.len() == 1 && "-"@[0] == '-');
    reveal_strlit("*");
    assert("*"@.len() == 1 && "*"@[0] == '*');
    reveal_strlit("/");
    assert("/"@.len() == 1 && "/"@[0] == '/');
    reveal_strlit(">");
    assert(">"@.len() == 1 && ">"@[0] == '>');
    reveal_strlit(">=");
    assert(">="@.len() == 2 && ">="@[0] == '>');
    reveal_strlit("==");
    assert("=="@.len() == 2 && "=="@[0] == '=');
    reveal_strlit("!=");
    assert("!="@.len() == 2 && "!="@[0] == '!');
    reveal_strlit("<");
    assert("<"@.len() == 1 && "<"@[0] == '<');
    reveal_strlit("<=");
    assert("<="@.len() == 2 && "<="@[0] == '<');
    reveal_strlit("&&");
    assert("&&"@.len() == 2 && "&&"@[0] == '&');
    reveal_strlit("&");
    assert("&"@.len() == 1 && "&"@[0] == '&');
    reveal_strlit("||");
    assert("||"@.len() == 2 && "||"@[0] == '|');
    reveal_strlit("|");
    assert("|"@.len() == 1 && "|"@[0] == '|');
    reveal_strlit("!");
    assert("!"@.len() == 1 && "!"@[0] == '!');
    reveal_strlit("(");
    assert("("@.len() == 1 && "("@[0] == '(');
    reveal_strlit(")");
    assert(")"@.len() == 1 && ")"@[0] == ')');
    reveal_strlit("{");
    assert("{"@.len() == 1 && "{"@[0] == '{');
    reveal_strlit("}");
    assert("}"@.len() == 1 && "}"@[0] == '}');
    reveal_strlit(";");
    assert(";"@.len() == 1 && ";"@[0] == ';');
    reveal_strlit(",");
    assert(","@.len() == 1 && ","@[0] == ',');
    reveal_strlit("false");
    assert("false"@.len() == 5 && "false"@[0] == 'f');
    reveal_strlit("true");
    assert("true"@.len() == 4 && "true"@[0] == 't');
    reveal_strlit("boolean");
    assert("boolean"@.len() == 7 && "boolean"@[0] == 'b');
    reveal_strlit("int");
    assert("int"@.len() == 3 && "int"@[0] == 'i');
    reveal_strlit("void");
    assert("void"@.len() == 4 && "void"@[0] == 'v');
    reveal_strlit("if");
    assert("if"@.len() == 2 && "if"@[0] == 'i');
    reveal_strlit("else");
    assert("else"@.len() == 4 && "else"@[0] == 'e');
    reveal_strlit("main");
    assert("main"@.len() == 4 && "main"@[0] == 'm');
    reveal_strlit("while");
    assert("while"@.len() == 5 && "while"@[0] == 'w');
    reveal_strlit("a");
    assert("a"@.len() == 1 && "a"@[0] == 'a');
    reveal_strlit("b");
    assert("b"@.len() == 1 && "b"@[0] == 'b');
    reveal_strlit("c");
    assert("c"@.len() == 1 && "c"@[0] == 'c');
    reveal_strlit("d");
    assert("d"@.len() == 1 && "d"@[0] == 'd');
    reveal_strlit("e");
    assert("e"@.len() == 1 && "e"@[0] == 'e');
    reveal_strlit("f");
    assert("f"@.len() == 1 && "f"@[0] == 'f');
    reveal_strlit("g");
    assert("g"@.len() == 1 && "g"@[0] == 'g');
    reveal_strlit("h");
    assert("h"@.len() == 1 && "h"@[0] == 'h');
    reveal_strlit("i");
    assert("i"@.len() == 1 && "i"@[0] == 'i');
    reveal_strlit("j");
    assert("j"@.len() == 1 && "j"@[0] == 'j');
    reveal_strlit("k");
    assert("k"@.len() == 1 && "k"@[0] == 'k');
    reveal_strlit("l");
    assert("l"@.len() == 1 && "l"@[0] == 'l');
    reveal_strlit("m");
    assert("m"@.len() == 1 && "m"@[0] == 'm');
    reveal_strlit("n");
    assert("n"@.len() == 1 && "n"@[0] == 'n');
    reveal_strlit("ñ");
    assert("ñ"@.len() == 1 && "ñ"@[0] == 'ñ');
    reveal_strlit("o");
    assert("o"@.len() == 1 && "o"@[0] == 'o');
    reveal_strlit("p");
    assert("p"@.len() == 1 && "p"@[0] == 'p');
    reveal_strlit("q");
    assert("q"@.len() == 1 && "q"@[0] == 'q');
    reveal_strlit("r");
    assert("r"@.len() == 1 && "r"@[0] == 'r');
    reveal_strlit("s");
    assert("s"@.len() == 1 && "s"@[0] == 's');
    reveal_strlit("t");
    assert("t"@.len() == 1 && "t"@[0] == 't');
    reveal_strlit("u");
    assert("u"@.len() == 1 && "u"@[0] == 'u');
    reveal_strlit("v");
    assert("v"@.len() == 1 && "v"@[0] == 'v');
    reveal_strlit("w");
    assert("w"@.len() == 1 && "w"@[0] == 'w');
    reveal_strlit("x");
    assert("x"@.len() == 1 && "x"@[0] == 'x');
    reveal_strlit("y");
    assert("y"@.len() == 1 && "y"@[0] == 'y');
    reveal_strlit("z");
    assert("z"@.len() == 1 && "z"@[0] == 'z');
    reveal_strlit("A");
    assert("A"@.len() == 1 && "A"@[0] == 'A');
    reveal_strlit("B");
    assert("B"@.len() == 1 && "B"@[0] == 'B');
    reveal_strlit("C");
    assert("C"@.len() == 1 && "C"@[0] == 'C');
    reveal_strlit("D");
    assert("D"@.len() == 1 && "D"@[0] == 'D');
    reveal_strlit("E");
    assert("E"@.len() == 1 && "E"@[0] == 'E');
    reveal_strlit("F");
    assert("F"@.len() == 1 && "F"@[0] == 'F');
    reveal_strlit("G");
    assert("G"@.len() == 1 && "G"@[0] == 'G');
    reveal_strlit("H");
    assert("H"@.len() == 1 && "H"@[0] == 'H');
    reveal_strlit("I");
    assert("I"@.len() == 1 && "I"@[0] == 'I');
    reveal_strlit("J");
    assert("J"@.len() == 1 && "J"@[0] == 'J');
    reveal_strlit("K");
    assert("K"@.len() == 1 && "K"@[0] == 'K');
    reveal_strlit("L");
    assert("L"@.len() == 1 && "L"@[0] == 'L');
    reveal_strlit("M");
    assert("M"@.len() == 1 && "M"@[0] == 'M');
    reveal_strlit("N");
    assert("N"@.len() == 1 && "N"@[0] == 'N');
    reveal_strlit("Ñ");
    assert("Ñ"@.len() == 1 && "Ñ"@[0] == 'Ñ');
    reveal_strlit("O");
    assert("O"@.len() == 1 && "O"@[0] == 'O');
    reveal_strlit("P");
    assert("P"@.len() == 1 && "P"@[0] == 'P');
    reveal_strlit("Q");
    assert("Q"@.len() == 1 && "Q"@[0] == 'Q');
    reveal_strlit("R");
    assert("R"@.len() == 1 && "R"@[0] == 'R');
    reveal_strlit("S");
    assert("S"@.len() == 1 && "S"@[0] == 'S');
    reveal_strlit("T");
    assert("T"@.len() == 1 && "T"@[0] == 'T');
    reveal_strlit("U");
    assert("U"@.len() == 1 && "U"@[0] == 'U');
    reveal_strlit("V");
    assert("V"@.len() == 1 && "V"@[0] == 'V');
    reveal_strlit("W");
    assert("W"@.len() == 1 && "W"@[0] == 'W');
    reveal_strlit("X");
    assert("X"@.len() == 1 && "X"@[0] == 'X');
    reveal_strlit("Y");
    assert("Y"@.len() == 1 && "Y"@[0] == 'Y');
    reveal_strlit("Z");
    assert("Z"@.len() == 1 && "Z"@[0] == 'Z');
    reveal_strlit("0");
    assert("0"@.len() == 1 && "0"@[0] == '0');
    reveal_strlit("1");
    assert("1"@.len() == 1 && "1"@[0] == '1');
    reveal_strlit("2");
    assert("2"@.len() == 1 && "2"@[0] == '2');
    reveal_strlit("3");
    assert("3"@.len() == 1 && "3"@[0] == '3');
    reveal_strlit("4");
    assert("4"@.len() == 1 && "4"@[0] == '4');
    reveal_strlit("5");
    assert("5"@.len() == 1 && "5"@[0] == '5');
    reveal_strlit("6");
    assert("6"@.len() == 1 && "6"@[0] == '6');
    reveal_strlit("7");
    assert("7"@.len() == 1 && "7"@[0] == '7');
    reveal_strlit("8");
    assert("8"@.len() == 1 && "8"@[0] == '8');
    reveal_strlit("9");
    assert("9"@.len() == 1 && "9"@[0] == '9');
    assert forall|c: char| ('a' <= c <= 'z' || 'A' <= c <= 'Z' || c == 'ñ' || c == 'Ñ') implies {
        &&& jay_grammar().contains_key(seq![c])
        &&& jay_grammar()[seq![c]] == "LETTER"@
    } by {
        if c == 'a' {
            assert(seq![c] =~= "a"@);
        } else if c == 'b' {
            assert(seq![c] =~= "b"@);
        } else if c == 'c' {
            assert(seq![c] =~= "c"@);
        } else if c == 'd' {
            assert(seq![c] =~= "d"@);
        } else if c == 'e' {
            assert(seq![c] =~= "e"@);
        } else if c == 'f' {
            assert(seq![c] =~= "f"@);
        } else if c == 'g' {
            assert(seq![c] =~= "g"@);
        } else if c == 'h' {
            assert(seq![c] =~= "h"@);
        } else if c == 'i' {
            assert(seq![c] =~= "i"@);
        } else if c == 'j' {
            assert(seq![c] =~= "j"@);
        } else if c == 'k' {
            assert(seq![c] =~= "k"@);
        } else if c == 'l' {
            assert(seq![c] =~= "l"@);
        } else if c == 'm' {
            assert(seq![c] =~= "m"@);
        } else if c == 'n' {
            assert(seq![c] =~= "n"@);
        } else if c == 'ñ' {
            assert(seq![c] =~= "ñ"@);
        } else if c == 'o' {
            assert(seq![c] =~= "o"@);
        } else if c == 'p' {
            assert(seq![c] =~= "p"@);
        } else if c == 'q' {
            assert(seq![c] =~= "q"@);
        } else if c == 'r' {
            assert(seq![c] =~= "r"@);
        } else if c == 's' {
            assert(seq![c] =~= "s"@);
        } else if c == 't' {
            assert(seq![c] =~= "t"@);
        } else if c == 'u' {
            assert(seq![c] =~= "u"@);
        } else if c == 'v' {
            assert(seq![c] =~= "v"@);
        } else if c == 'w' {
            assert(seq![c] =~= "w"@);
        } else if c == 'x' {
            assert(seq![c] =~= "x"@);
        } else if c == 'y' {
            assert(seq![c] =~= "y"@);
        } else if c == 'z' {
            assert(seq![c] =~= "z"@);
        } else if c == 'A' {
            assert(seq![c] =~= "A"@);
        } else if c == 'B' {
            assert(seq![c] =~= "B"@);
        } else if c == 'C' {
            assert(seq![c] =~= "C"@);
        } else if c == 'D' {
            assert(seq![c] =~= "D"@);
        } else if c == 'E' {
            assert(seq![c] =~= "E"@);
        } else if c == 'F' {
            assert(seq![c] =~= "F"@);
        } else if c == 'G' {
            assert(seq![c] =~= "G"@);
        } else if c == 'H' {
            assert(seq![c] =~= "H"@);
        } else if c == 'I' {
            assert(seq![c] =~= "I"@);
        } else if c == 'J' {
            assert(seq![c] =~= "J"@);
        } else if c == 'K' {
            assert(seq![c] =~= "K"@);
        } else if c == 'L' {
            assert(seq![c] =~= "L"@);
        } else if c == 'M' {
            assert(seq![c] =~= "M"@);
        } else if c == 'N' {
            assert(seq![c] =~= "N"@);
        } else if c == 'Ñ' {
            assert(seq![c] =~= "Ñ"@);
        } else if c == 'O' {
            assert(seq![c] =~= "O"@);
        } else if c == 'P' {
            assert(seq![c] =~= "P"@);
        } else if c == 'Q' {
            assert(seq![c] =~= "Q"@);
        } else if c == 'R' {
            assert(seq![c] =~= "R"@);
        } else if c == 'S' {
            assert(seq![c] =~= "S"@);
        } else if c == 'T' {
            assert(seq![c] =~= "T"@);
        } else if c == 'U' {
            assert(seq![c] =~= "U"@);
        } else if c == 'V' {
            assert(seq![c] =~= "V"@);
        } else if c == 'W' {
            assert(seq![c] =~= "W"@);
        } else if c == 'X' {
            assert(seq![c] =~= "X"@);
        } else if c == 'Y' {
            assert(seq![c] =~= "Y"@);
        } else if c == 'Z' {
            assert(seq![c] =~= "Z"@);
        }
    }
}

/// Jay's words and symbols: the grammar classifies each keyword and
/// boolean literal (`boolean else if int main void while true false`) as a
/// keyword, each operator (`= + - * / > >= == != < <= && || !`) as an
/// operator, and each separator (`( ) { } ; ,`) as a separator.
#[verifier::spinoff_prover]
#[verifier::rlimit(100)]
pub proof fn law_symbol_categories()
    ensures
        is_of_kind(jay_grammar(), "boolean"@, "KEYWORD"@),
        is_of_kind(jay_grammar(), "else"@, "KEYWORD"@),
        is_of_kind(jay_grammar(), "if"@, "KEYWORD"@),
        is_of_kind(jay_grammar(), "int"@, "KEYWORD"@),
        is_of_kind(jay_grammar(), "main"@, "KEYWORD"@),
        is_of_kind(jay_grammar(), "void"@, "KEYWORD"@),
        is_of_kind(jay_grammar(), "while"@, "KEYWORD"@),
        is_of_kind(jay_grammar(), "true"@, "KEYWORD"@),
        is_of_kind(jay_grammar(), "false"@, "KEYWORD"@),
        is_of_kind(jay_grammar(), "="@, "OPERATOR"@),
        is_of_kind(jay_grammar(), "+"@, "OPERATOR"@),
        is_of_kind(jay_grammar(), "-"@, "OPERATOR"@),
        is_of_kind(jay_grammar(), "*"@, "OPERATOR"@),
        is_of_kind(jay_grammar(), "/"@, "OPERATOR"@),
        is_of_kind(jay_grammar(), ">"@, "OPERATOR"@),
        is_of_kind(jay_grammar(), ">="@, "OPERATOR"@),
        is_of_kind(jay_grammar(), "=="@, "OPERATOR"@),
        is_of_kind(jay_grammar(), "!="@, "OPERATOR"@),
        is_of_kind(jay_grammar(), "<"@, "OPERATOR"@),
        is_of_kind(jay_grammar(), "<="@, "OPERATOR"@),
        is_of_kind(jay_grammar(), "&&"@, "OPERATOR"@),
        is_of_kind(jay_grammar(), "||"@, "OPERATOR"@),
        is_of_kind(jay_grammar(), "!"@, "OPERATOR"@),
        is_of_kind(jay_grammar(), "("@, "SEPARATOR"@),
        is_of_kind(jay_grammar(), ")"@, "SEPARATOR"@),
        is_of_kind(jay_grammar(), "{"@, "SEPARATOR"@),
        is_of_kind(jay_grammar(), "}"@, "SEPARATOR"@),
        is_of_kind(jay_grammar(), ";"@, "SEPARATOR"@),
        is_of_kind(jay_grammar(), ","@, "SEPARATOR"@),
{
    reveal_strlit("=");
    assert("="@.len() == 1 && "="@[0] == '=');
    reveal_strlit("+");
    assert("+"@.len() == 1 && "+"@[0] == '+');
    reveal_strlit("-");
    assert("-"@.len() == 1 && "-"@[0] == '-');
    reveal_strlit("*");
    assert("*"@.len() == 1 && "*"@[0] == '*');
    reveal_strlit("/");
    assert("/"@.len() == 1 && "/"@[0] == '/');
    reveal_strlit(">");
    assert(">"@.len() == 1 && ">"@[0] == '>');
    reveal_strlit(">=");
    assert(">="@.len() == 2 && ">="@[0] == '>');
    reveal_strlit("==");
    assert("=="@.len() == 2 && "=="@[0] == '=');
    reveal_strlit("!=");
    assert("!="@.len() == 2 && "!="@[0] == '!');
    reveal_strlit("<");
    assert("<"@.len() == 1 && "<"@[0] == '<');
    reveal_strlit("<=");
    assert("<="@.len() == 2 && "<="@[0] == '<');
    reveal_strlit("&&");
    assert("&&"@.len() == 2 && "&&"@[0] == '&');
    reveal_strlit("&");
    assert("&"@.len() == 1 && "&"@[0] == '&');
    reveal_strlit("||");
    assert("||"@.len() == 2 && "||"@[0] == '|');
    reveal_strlit("|");
    assert("|"@.len() == 1 && "|"@[0] == '|');
    reveal_strlit("!");
    assert("!"@.len() == 1 && "!"@[0] == '!');
    reveal_strlit("(");
    assert("("@.len() == 1 && "("@[0] == '(');
    reveal_strlit(")");
    assert(")"@.len() == 1 && ")"@[0] == ')');
    reveal_strlit("{");
    assert("{"@.len() == 1 && "{"@[0] == '{');
    reveal_strlit("}");
    assert("}"@.len() == 1 && "}"@[0] == '}');
    reveal_strlit(";");
    assert(";"@.len() == 1 && ";"@[0] == ';');
    reveal_strlit(",");
    assert(","@.len() == 1 && ","@[0] == ',');
    reveal_strlit("false");
    assert("false"@.len() == 5 && "false"@[0] == 'f');
    reveal_strlit("true");
    assert("true"@.len() == 4 && "true"@[0] == 't');
    reveal_strlit("boolean");
    assert("boolean"@.len() == 7 && "boolean"@[0] == 'b');
    reveal_strlit("int");
    assert("int"@.len() == 3 && "int"@[0] == 'i');
    reveal_strlit("void");
    assert("void"@.len() == 4 && "void"@[0] == 'v');
    reveal_strlit("if");
    assert("if"@.len() == 2 && "if"@[0] == 'i');
    reveal_strlit("else");
    assert("else"@.len() == 4 && "else"@[0] == 'e');
    reveal_strlit("main");
    assert("main"@.len() == 4 && "main"@[0] == 'm');
    reveal_strlit("while");
    assert("while"@.len() == 5 && "while"@[0] == 'w');
    reveal_strlit("a");
    assert("a"@.len() == 1 && "a"@[0] == 'a');
    reveal_strlit("b");
    assert("b"@.len() == 1 && "b"@[0] == 'b');
    reveal_strlit("c");
    assert("c"@.len() == 1 && "c"@[0] == 'c');
    reveal_strlit("d");
    assert("d"@.len() == 1 && "d"@[0] == 'd');
    reveal_strlit("e");
    assert("e"@.len() == 1 && "e"@[0] == 'e');
    reveal_strlit("f");
    assert("f"@.len() == 1 && "f"@[0] == 'f');
    reveal_strlit("g");
    assert("g"@.len() == 1 && "g"@[0] == 'g');
    reveal_strlit("h");
    assert("h"@.len() == 1 && "h"@[0] == 'h');
    reveal_strlit("i");
    assert("i"@.len() == 1 && "i"@[0] == 'i');
    reveal_strlit("j");
    assert("j"@.len() == 1 && "j"@[0] == 'j');
    reveal_strlit("k");
    assert("k"@.len() == 1 && "k"@[0] == 'k');
    reveal_strlit("l");
    assert("l"@.len() == 1 && "l"@[0] == 'l');
    reveal_strlit("m");
    assert("m"@.len() == 1 && "m"@[0] == 'm');
    reveal_strlit("n");
    assert("n"@.len() == 1 && "n"@[0] == 'n');
    reveal_strlit("ñ");
    assert("ñ"@.len() == 1 && "ñ"@[0] == 'ñ');
    reveal_strlit("o");
    assert("o"@.len() == 1 && "o"@[0] == 'o');
    reveal_strlit("p");
    assert("p"@.len() == 1 && "p"@[0] == 'p');
    reveal_strlit("q");
    assert("q"@.len() == 1 && "q"@[0] == 'q');
    reveal_strlit("r");
    assert("r"@.len() == 1 && "r"@[0] == 'r');
    reveal_strlit("s");
    assert("s"@.len() == 1 && "s"@[0] == 's');
    reveal_strlit("t");
    assert("t"@.len() == 1 && "t"@[0] == 't');
    reveal_strlit("u");
    assert("u"@.len() == 1 && "u"@[0] == 'u');
    reveal_strlit("v");
    assert("v"@.len() == 1 && "v"@[0] == 'v');
    reveal_strlit("w");
    assert("w"@.len() == 1 && "w"@[0] == 'w');
    reveal_strlit("x");
    assert("x"@.len() == 1 && "x"@[0] == 'x');
    reveal_strlit("y");
    assert("y"@.len() == 1 && "y"@[0] == 'y');
    reveal_strlit("z");
    assert("z"@.len() == 1 && "z"@[0] == 'z');
    reveal_strlit("A");
    assert("A"@.len() == 1 && "A"@[0] == 'A');
    reveal_strlit("B");
    assert("B"@.len() == 1 && "B"@[0] == 'B');
    reveal_strlit("C");
    assert("C"@.len() == 1 && "C"@[0] == 'C');
    reveal_strlit("D");
    assert("D"@.len() == 1 && "D"@[0] == 'D');
    reveal_strlit("E");
    assert("E"@.len() == 1 && "E"@[0] == 'E');
    reveal_strlit("F");
    assert("F"@.len() == 1 && "F"@[0] == 'F');
    reveal_strlit("G");
    assert("G"@.len() == 1 && "G"@[0] == 'G');
    reveal_strlit("H");
    assert("H"@.len() == 1 && "H"@[0] == 'H');
    reveal_strlit("I");
    assert("I"@.len() == 1 && "I"@[0] == 'I');
    reveal_strlit("J");
    assert("J"@.len() == 1 && "J"@[0] == 'J');
    reveal_strlit("K");
    assert("K"@.len() == 1 && "K"@[0] == 'K');
    reveal_strlit("L");
    assert("L"@.len() == 1 && "L"@[0] == 'L');
    reveal_strlit("M");
    assert("M"@.len() == 1 && "M"@[0] == 'M');
    reveal_strlit("N");
    assert("N"@.len() == 1 && "N"@[0] == 'N');
    reveal_strlit("Ñ");
    assert("Ñ"@.len() == 1 && "Ñ"@[0] == 'Ñ');
    reveal_strlit("O");
    assert("O"@.len() == 1 && "O"@[0] == 'O');
    reveal_strlit("P");
    assert("P"@.len() == 1 && "P"@[0] == 'P');
    reveal_strlit("Q");
    assert("Q"@.len() == 1 && "Q"@[0] == 'Q');
    reveal_strlit("R");
    assert("R"@.len() == 1 && "R"@[0] == 'R');
    reveal_strlit("S");
    assert("S"@.len() == 1 && "S"@[0] == 'S');
    reveal_strlit("T");
    assert("T"@.len() == 1 && "T"@[0] == 'T');
    reveal_strlit("U");
    assert("U"@.len() == 1 && "U"@[0] == 'U');
    reveal_strlit("V");
    assert("V"@.len() == 1 && "V"@[0] == 'V');
    reveal_strlit("W");
    assert("W"@.len() == 1 && "W"@[0] == 'W');
    reveal_strlit("X");
    assert("X"@.len() == 1 && "X"@[0] == 'X');
    reveal_strlit("Y");
    assert("Y"@.len() == 1 && "Y"@[0] == 'Y');
    reveal_strlit("Z");
    assert("Z"@.len() == 1 && "Z"@[0] == 'Z');
    reveal_strlit("0");
    assert("0"@.len() == 1 && "0"@[0] == '0');
    reveal_strlit("1");
    assert("1"@.len() == 1 && "1"@[0] == '1');
    reveal_strlit("2");
    assert("2"@.len() == 1 && "2"@[0] == '2');
    reveal_strlit("3");
    assert("3"@.len() == 1 && "3"@[0] == '3');
    reveal_strlit("4");
    assert("4"@.len() == 1 && "4"@[0] == '4');
    reveal_strlit("5");
    assert("5"@.len() == 1 && "5"@[0] == '5');
    reveal_strlit("6");
    assert("6"@.len() == 1 && "6"@[0] == '6');
    reveal_strlit("7");
    assert("7"@.len() == 1 && "7"@[0] == '7');
    reveal_strlit("8");
    assert("8"@.len() == 1 && "8"@[0] == '8');
    reveal_strlit("9");
    assert("9"@.len() == 1 && "9"@[0] == '9');
    reveal_strlit("KEYWORD");
    reveal_strlit("BOOLEAN_KEYWORD");
    assert("BOOLEAN_KEYWORD"@.subrange(8int, 8int + "KEYWORD"@.len()) =~= "KEYWORD"@);
    reveal_strlit("ELSE_KEYWORD");
    assert("ELSE_KEYWORD"@.subrange(5int, 5int + "KEYWORD"@.len()) =~= "KEYWORD"@);
    reveal_strlit("IF_KEYWORD");
    assert("IF_KEYWORD"@.subrange(3int, 3int + "KEYWORD"@.len()) =~= "KEYWORD"@);
    reveal_strlit("INT_KEYWORD");
    assert("INT_KEYWORD"@.subrange(4int, 4int + "KEYWORD"@.len()) =~= "KEYWORD"@);
    reveal_strlit("MAIN_KEYWORD");
    assert("MAIN_KEYWORD"@.subrange(5int, 5int + "KEYWORD"@.len()) =~= "KEYWORD"@);
    reveal_strlit("VOID_KEYWORD");
    assert("VOID_KEYWORD"@.subrange(5int, 5int + "KEYWORD"@.len()) =~= "KEYWORD"@);
    reveal_strlit("WHILE_KEYWORD");
    assert("WHILE_KEYWORD"@.subrange(6int, 6int + "KEYWORD"@.len()) =~= "KEYWORD"@);
    reveal_strlit("TRUE_KEYWORD");
    assert("TRUE_KEYWORD"@.subrange(5int, 5int + "KEYWORD"@.len()) =~= "KEYWORD"@);
    reveal_strlit("FALSE_KEYWORD");
    assert("FALSE_KEYWORD"@.subrange(6int, 6int + "KEYWORD"@.len()) =~= "KEYWORD"@);
    reveal_strlit("OPERATOR");
    reveal_strlit("ASSIGN_OPERATOR");
    assert("ASSIGN_OPERATOR"@.subrange(7int, 7int + "OPERATOR"@.len()) =~= "OPERATOR"@);
    reveal_strlit("PLUS_OPERATOR");
    assert("PLUS_OPERATOR"@.subrange(5int, 5int + "OPERATOR"@.len()) =~= "OPERATOR"@);
    reveal_strlit("MINUS_OPERATOR");
    assert("MINUS_OPERATOR"@.subrange(6int, 6int + "OPERATOR"@.len()) =~= "OPERATOR"@);
    reveal_strlit("MULT_OPERATOR");
    assert("MULT_OPERATOR"@.subrange(5int, 5int + "OPERATOR"@.len()) =~= "OPERATOR"@);
    reveal_strlit("DIVISION_OPERATOR");
    assert("DIVISION_OPERATOR"@.subrange(9int, 9int + "OPERATOR"@.len()) =~= "OPERATOR"@);
    reveal_strlit("GREATER_THAN_OPERATOR");
    assert("GREATER_THAN_OPERATOR"@.subrange(13int, 13int + "OPERATOR"@.len()) =~= "OPERATOR"@);
    reveal_strlit("GREATER_OR_EQUAL_OPERATOR");
    assert("GREATER_OR_EQUAL_OPERATOR"@.subrange(17int, 17int + "OPERATOR"@.len()) =~= "OPERATOR"@);
    reveal_strlit("EQUAL_OPERATOR");
    assert("EQUAL_OPERATOR"@.subrange(6int, 6int + "OPERATOR"@.len()) =~= "OPERATOR"@);
    reveal_strlit("DIFFERENT_OPERATOR");
    assert("DIFFERENT_OPERATOR"@.subrange(10int, 10int + "OPERATOR"@.len()) =~= "OPERATOR"@);
    reveal_strlit("LESS_THAN_OPERATOR");
    assert("LESS_THAN_OPERATOR"@.subrange(10int, 10int + "OPERATOR"@.len()) =~= "OPERATOR"@);
    reveal_strlit("LESS_OR_EQUAL_OPERATOR");
    assert("LESS_OR_EQUAL_OPERATOR"@.subrange(14int, 14int + "OPERATOR"@.len()) =~= "OPERATOR"@);
    reveal_strlit("AND_OPERATOR");
    assert("AND_OPERATOR"@.subrange(4int, 4int + "OPERATOR"@.len()) =~= "OPERATOR"@);
    reveal_strlit("OR_OPERATOR");
    assert("OR_OPERATOR"@.subrange(3int, 3int + "OPERATOR"@.len()) =~= "OPERATOR"@);
    reveal_strlit("NOT_OPERATOR");
    assert("NOT_OPERATOR"@.subrange(4int, 4int + "OPERATOR"@.len()) =~= "OPERATOR"@);
    reveal_strlit("SEPARATOR");
    reveal_strlit("OPEN_PARENTHESIS_SEPARATOR");
    assert("OPEN_PARENTHESIS_SEPARATOR"@.subrange(17int, 17int + "SEPARATOR"@.len()) =~= "SEPARATOR"@);
    reveal_strlit("CLOSE_PARENTHESIS_SEPARATOR");
    assert("CLOSE_PARENTHESIS_SEPARATOR"@.subrange(18int, 18int + "SEPARATOR"@.len()) =~= "SEPARATOR"@);
    reveal_strlit("OPEN_BRACKET_SEPARATOR");
    assert("OPEN_BRACKET_SEPARATOR"@.subrange(13int, 13int + "SEPARATOR"@.len()) =~= "SEPARATOR"@);
    reveal_strlit("CLOSE_BRACKET_SEPARATOR");
    assert("CLOSE_BRACKET_SEPARATOR"@.subrange(14int, 14int + "SEPARATOR"@.len()) =~= "SEPARATOR"@);
    reveal_strlit("SEMICOLON_SEPARATOR");
    assert("SEMICOLON_SEPARATOR"@.subrange(10int, 10int + "SEPARATOR"@.len()) =~= "SEPARATOR"@);
    reveal_strlit("COMMA_SEPARATOR");
    assert("COMMA_SEPARATOR"@.subrange(6int, 6int + "SEPARATOR"@.len()) =~= "SEPARATOR"@);
}

/// The table of Jay's terminal symbols: operators, separators, keywords,
/// letters and digits, each with its category.
#[verifier::rlimit(100)]
pub fn generate_tokens() -> (r: StringTable)
    ensures
        r@ == jay_grammar(),
        distinct_keys(r.pairs()),
        r.pairs().len() == r@.dom().len(),
{
    let mut t = StringTable::new();
    t.insert(String::from_str("="), String::from_str("ASSIGN_OPERATOR"));
    t.insert(String::from_str("+"), String::from_str("PLUS_OPERATOR"));
    t.insert(String::from_str("-"), String::from_str("MINUS_OPERATOR"));
    t.insert(String::from_str("*"), String::from_str("MULT_OPERATOR"));
    t.insert(String::from_str("/"), String::from_str("DIVISION_OPERATOR"));
    t.insert(String::from_str(">"), String::from_str("GREATER_THAN_OPERATOR"));
    t.insert(String::from_str(">="), String::from_str("GREATER_OR_EQUAL_OPERATOR"));
    t.insert(String::from_str("=="), String::from_str("EQUAL_OPERATOR"));
    t.insert(String::from_str("!="), String::from_str("DIFFERENT_OPERATOR"));
    t.insert(String::from_str("<"), String::from_str("LESS_THAN_OPERATOR"));
    t.insert(String::from_str("<="), String::from_str("LESS_OR_EQUAL_OPERATOR"));
    t.insert(String::from_str("&&"), String::from_str("AND_OPERATOR"));
    t.insert(String::from_str("&"), String::from_str("AND_SOLO_OPERATOR"));
    t.insert(String::from_str("||"), String::from_str("OR_OPERATOR"));
    t.insert(String::from_str("|"), String::from_str("VERTICAL_LINE_OPERATOR"));
    t.insert(String::from_str("!"), String::from_str("NOT_OPERATOR"));
    t.insert(String::from_str("("), String::from_str("OPEN_PARENTHESIS_SEPARATOR"));
    t.insert(String::from_str(")"), String::from_str("CLOSE_PARENTHESIS_SEPARATOR"));
    t.insert(String::from_str("{"), String::from_str("OPEN_BRACKET_SEPARATOR"));
    t.insert(String::from_str("}"), String::from_str("CLOSE_BRACKET_SEPARATOR"));
    t.insert(String::from_str(";"), String::from_str("SEMICOLON_SEPARATOR"));
    t.insert(String::from_str(","), String::from_str("COMMA_SEPARATOR"));
    t.insert(String::from_str("false"), String::from_str("FALSE_KEYWORD"));
    t.insert(String::from_str("true"), String::from_str("TRUE_KEYWORD"));
    t.insert(String::from_str("boolean"), String::from_str("BOOLEAN_KEYWORD"));
    t.insert(String::from_str("int"), String::from_str("INT_KEYWORD"));
    t.insert(String::from_str("void"), String::from_str("VOID_KEYWORD"));
    t.insert(String::from_str("if"), String::from_str("IF_KEYWORD"));
    t.insert(String::from_str("else"), String::from_str("ELSE_KEYWORD"));
    t.insert(String::from_str("main"), String::from_str("MAIN_KEYWORD"));
    t.insert(String::from_str("while"), String::from_str("WHILE_KEYWORD"));
    t.insert(String::from_str("a"), String::from_str("LETTER"));
    t.insert(String::from_str("b"), String::from_str("LETTER"));
    t.insert(String::from_str("c"), String::from_str("LETTER"));
    t.insert(String::from_str("d"), String::from_str("LETTER"));
    t.insert(String::from_str("e"), String::from_str("LETTER"));
    t.insert(String::from_str("f"), String::from_str("LETTER"));
    t.insert(String::from_str("g"), String::from_str("LETTER"));
    t.insert(String::from_str("h"), String::from_str("LETTER"));
    t.insert(String::from_str("i"), String::from_str("LETTER"));
    t.insert(String::from_str("j"), String::from_str("LETTER"));
    t.insert(String::from_str("k"), String::from_str("LETTER"));
    t.insert(String::from_str("l"), String::from_str("LETTER"));
    t.insert(String::from_str("m"), String::from_str("LETTER"));
    t.insert(String::from_str("n"), String::from_str("LETTER"));
    t.insert(String::from_str("ñ"), String::from_str("LETTER"));
    t.insert(String::from_str("o"), String::from_str("LETTER"));
    t.insert(String::from_str("p"), String::from_str("LETTER"));
    t.insert(String::from_str("q"), String::from_str("LETTER"));
    t.insert(String::from_str("r"), String::from_str("LETTER"));
    t.insert(String::from_str("s"), String::from_str("LETTER"));
    t.insert(String::from_str("t"), String::from_str("LETTER"));
    t.insert(String::from_str("u"), String::from_str("LETTER"));
    t.insert(String::from_str("v"), String::from_str("LETTER"));
    t.insert(String::from_str("w"), String::from_str("LETTER"));
    t.insert(String::from_str("x"), String::from_str("LETTER"));
    t.insert(String::from_str("y"), String::from_str("LETTER"));
    t.insert(String::from_str("z"), String::from_str("LETTER"));
    t.insert(String::from_str("A"), String::from_str("LETTER"));
    t.insert(String::from_str("B"), String::from_str("LETTER"));
    t.insert(String::from_str("C"), String::from_str("LETTER"));
    t.insert(String::from_str("D"), String::from_str("LETTER"));
    t.insert(String::from_str("E"), String::from_str("LETTER"));
    t.insert(String::from_str("F"), String::from_str("LETTER"));
    t.insert(String::from_str("G"), String::from_str("LETTER"));
    t.insert(String::from_str("H"), String::from_str("LETTER"));
    t.insert(String::from_str("I"), String::from_str("LETTER"));
    t.insert(String::from_str("J"), String::from_str("LETTER"));
    t.insert(String::from_str("K"), String::from_str("LETTER"));
    t.insert(String::from_str("L"), String::from_str("LETTER"));
    t.insert(String::from_str("M"), String::from_str("LETTER"));
    t.insert(String::from_str("N"), String::from_str("LETTER"));
    t.insert(String::from_str("Ñ"), String::from_str("LETTER"));
    t.insert(String::from_str("O"), String::from_str("LETTER"));
    t.insert(String::from_str("P"), String::from_str("LETTER"));
    t.insert(String::from_str("Q"), String::from_str("LETTER"));
    t.insert(String::from_str("R"), String::from_str("LETTER"));
    t.insert(String::from_str("S"), String::from_str("LETTER"));
    t.insert(String::from_str("T"), String::from_str("LETTER"));
    t.insert(String::from_str("U"), String::from_str("LETTER"));
    t.insert(String::from_str("V"), String::from_str("LETTER"));
    t.insert(String::from_str("W"), String::from_str("LETTER"));
    t.insert(String::from_str("X"), String::from_str("LETTER"));
    t.insert(String::from_str("Y"), String::from_str("LETTER"));
    t.insert(String::from_str("Z"), String::from_str("LETTER"));
    t.insert(String::from_str("0"), String::from_str("NUMBER"));
    t.insert(String::from_str("1"), String::from_str("NUMBER"));
    t.insert(String::from_str("2"), String::from_str("NUMBER"));
    t.insert(String::from_str("3"), String::from_str("NUMBER"));
    t.insert(String::from_str("4"), String::from_str("NUMBER"));
    t.insert(String::from_str("5"), String::from_str("NUMBER"));
    t.insert(String::from_str("6"), String::from_str("NUMBER"));
    t.insert(String::from_str("7"), String::from_str("NUMBER"));
    t.insert(String::from_str("8"), String::from_str("NUMBER"));
    t.insert(String::from_str("9"), String::from_str("NUMBER"));
    proof {
        law_entries_are_keys(&t);
    }
    t
}

} // verus!
