//! The Jay lexer: turns the text of a program into tokens, line by line,
//! using a `StringTable` to classify lexemes.
use vstd::prelude::*;

use crate::string_table::{is_of_kind, StringTable};
use crate::text::{
    chars_of, code_chars, code_part, is_white, lines, push_char, split_lines, split_words,
    starts_comment, string_of, trim_end, trim_start, line_state, strip_cr, trim, trim_chars, vec_views, word_state, words,
};

verus! {

/// The kind of a token.
#[derive(Debug, Copy, Clone, PartialEq, Eq, Structural)]
pub enum TokenType {
    Identifier,
    KeyWord,
    Separator,
    Operator,
}

/// A lexeme of a Jay program with the line it was read on.
#[derive(Debug)]
pub struct Token {
    pub value: String,
    pub column: u32,
    pub line: u32,
    pub token_type: TokenType,
}

/// A token taken by its views.
pub struct TokenView {
    pub value: Seq<char>,
    pub column: u32,
    pub line: u32,
    pub token_type: TokenType,
}

impl View for Token {
    type V = TokenView;

    open spec fn view(&self) -> TokenView {
        TokenView {
            value: self.value@,
            column: self.column,
            line: self.line,
            token_type: self.token_type,
        }
    }
}

impl Clone for Token {
    fn clone(&self) -> (r: Self)
        ensures
            r@ == self@,
    {
        Token {
            value: self.value.clone(),
            column: self.column,
            line: self.line,
            token_type: self.token_type,
        }
    }
}

/// The token with this value, kind and line, at column 0.
pub open spec fn tok(value: Seq<char>, token_type: TokenType, line: u32) -> TokenView {
    TokenView { value, column: 0, line, token_type }
}

/// The views of a sequence of tokens.
pub open spec fn token_views(s: Seq<Token>) -> Seq<TokenView> {
    s.map_values(|t: Token| t@)
}

impl Token {
    /// A token with the given value, kind and line, at column 0.
    pub fn build(token: &String, token_type: TokenType, current_line: u32) -> (r: Token)
        ensures
            r@ == tok(token@, token_type, current_line),
    {
        let new_token = token.clone();
        Token { value: new_token, token_type: token_type, line: current_line, column: 0 }
    }

    /// The token's text.
    pub fn get_value(&self) -> (r: String)
        ensures
            r@ == self.value@,
    {
        self.value.clone()
    }

    /// The line the token was read on.
    pub fn get_line(&self) -> (r: u32)
        ensures
            r == self.line,
    {
        self.line
    }
}

/// The one-character lexeme `c` is a letter or a digit.
pub open spec fn letter_or_digit(g: Map<Seq<char>, Seq<char>>, c: char) -> bool {
    g.contains_key(seq![c]) && (g[seq![c]] == "LETTER"@ || g[seq![c]] == "NUMBER"@)
}

/// The one-character lexeme `c` is a separator.
pub open spec fn separator(g: Map<Seq<char>, Seq<char>>, c: char) -> bool {
    is_of_kind(g, seq![c], "SEPARATOR"@)
}

/// The one-character lexeme `c` is (part of) an operator.
pub open spec fn operator(g: Map<Seq<char>, Seq<char>>, c: char) -> bool {
    is_of_kind(g, seq![c], "OPERATOR"@)
}

/// A finished run of letters and digits: a keyword if the grammar says so,
/// else an identifier.
pub open spec fn word_token(g: Map<Seq<char>, Seq<char>>, w: Seq<char>, line: u32) -> TokenView {
    if is_of_kind(g, w, "KEYWORD"@) {
        tok(w, TokenType::KeyWord, line)
    } else {
        tok(w, TokenType::Identifier, line)
    }
}

/// Where the scan of a word stands: the tokens emitted, the lexeme under
/// construction, and whether that lexeme is an operator.
pub struct ScanState {
    pub out: Seq<TokenView>,
    pub built: Seq<char>,
    pub check_next: bool,
}

/// The emitted tokens with `built` added, if it is not empty: as an
/// operator if it is an operator run, else as a word.
pub open spec fn flush(g: Map<Seq<char>, Seq<char>>, st: ScanState, line: u32) -> Seq<TokenView> {
    if st.built.len() > 0 {
        if st.check_next {
            st.out.push(tok(st.built, TokenType::Operator, line))
        } else {
            st.out.push(word_token(g, st.built, line))
        }
    } else {
        st.out
    }
}

/// `w` is one of the grammar's operators.
pub open spec fn operator_text(g: Map<Seq<char>, Seq<char>>, w: Seq<char>) -> bool {
    is_of_kind(g, w, "OPERATOR"@)
}

/// One character of the scan of a word. Letters and digits make up words;
/// a separator is a token of its own; operator characters make up an
/// operator run, which grows for as long as it stays one of the grammar's
/// operators, and otherwise ends and starts a new one.
pub open spec fn scan_step(g: Map<Seq<char>, Seq<char>>, st: ScanState, c: char, line: u32) -> ScanState {
    if letter_or_digit(g, c) && !st.check_next {
        ScanState { out: st.out, built: st.built.push(c), check_next: false }
    } else if letter_or_digit(g, c) {
        ScanState {
            out: st.out.push(tok(st.built, TokenType::Operator, line)),
            built: seq![c],
            check_next: false,
        }
    } else if separator(g, c) && !st.check_next {
        ScanState {
            out: flush(g, st, line).push(tok(seq![c], TokenType::Separator, line)),
            built: seq![],
            check_next: false,
        }
    } else if separator(g, c) {
        ScanState {
            out: st.out.push(tok(st.built, TokenType::Operator, line)).push(
                tok(seq![c], TokenType::Separator, line),
            ),
            built: seq![],
            check_next: false,
        }
    } else if operator(g, c) {
        if st.check_next && operator_text(g, st.built.push(c)) {
            ScanState { out: st.out, built: st.built.push(c), check_next: true }
        } else if st.check_next {
            ScanState {
                out: st.out.push(tok(st.built, TokenType::Operator, line)),
                built: seq![c],
                check_next: true,
            }
        } else {
            ScanState { out: flush(g, st, line), built: seq![c], check_next: true }
        }
    } else {
        st
    }
}

/// The scan of the characters of `w`, in order.
pub open spec fn scan_run(g: Map<Seq<char>, Seq<char>>, w: Seq<char>, line: u32) -> ScanState
    decreases w.len(),
{
    if w.len() == 0 {
        ScanState { out: seq![], built: seq![], check_next: false }
    } else {
        scan_step(g, scan_run(g, w.drop_last(), line), w.last(), line)
    }
}

/// The tokens of a whitespace-free word `w` read on `line`: the word
/// itself if it is a keyword, else the tokens its characters scan to.
pub open spec fn tokenize(g: Map<Seq<char>, Seq<char>>, w: Seq<char>, line: u32) -> Seq<TokenView> {
    if is_of_kind(g, w, "KEYWORD"@) {
        seq![tok(w, TokenType::KeyWord, line)]
    } else {
        flush(g, scan_run(g, w, line), line)
    }
}

/// The tokens of the words `ws` of one line, word after word.
pub open spec fn scan_words(g: Map<Seq<char>, Seq<char>>, ws: Seq<Seq<char>>, line: u32) -> Seq<TokenView>
    decreases ws.len(),
{
    if ws.len() == 0 {
        seq![]
    } else {
        scan_words(g, ws.drop_last(), line) + tokenize(g, ws.last(), line)
    }
}

/// A line that carries code: after trimming it is neither empty nor a comment.
pub open spec fn kept_line(l: Seq<char>) -> bool {
    trim(l).len() > 0 && !starts_comment(trim(l))
}

/// The words of a kept line: those of its trimmed text before any `//`.
pub open spec fn line_words(l: Seq<char>) -> Seq<Seq<char>> {
    words(trim(code_part(trim(l))))
}

/// How many of the lines `ls` carry code.
pub open spec fn kept_count(ls: Seq<Seq<char>>) -> nat
    decreases ls.len(),
{
    if ls.len() == 0 {
        0
    } else if kept_line(ls[0]) {
        1 + kept_count(ls.drop_first())
    } else {
        kept_count(ls.drop_first())
    }
}

/// The tokens of the lines `ls`, the first line that carries code being
/// numbered `line` and each further one the next number.
pub open spec fn lex_lines(g: Map<Seq<char>, Seq<char>>, ls: Seq<Seq<char>>, line: nat) -> Seq<TokenView>
    decreases ls.len(),
{
    if ls.len() == 0 {
        seq![]
    } else if kept_line(ls[0]) {
        scan_words(g, line_words(ls[0]), line as u32) + lex_lines(g, ls.drop_first(), line + 1)
    } else {
        lex_lines(g, ls.drop_first(), line)
    }
}

/// The lines of a source text, after the text is trimmed.
pub open spec fn source_lines(content: Seq<char>) -> Seq<Seq<char>> {
    lines(trim(content))
}

/// The tokens of a whole source text.
pub open spec fn lex_source(g: Map<Seq<char>, Seq<char>>, content: Seq<char>) -> Seq<TokenView> {
    lex_lines(g, source_lines(content), 1)
}

/// The lexer, holding the grammar it classifies lexemes by.
pub struct Lexer {
    pub grammar_tokens: StringTable,
}

impl Lexer {
    /// A lexer over a copy of `grammar_tokens`.
    pub fn build(grammar_tokens: &StringTable) -> (r: Lexer)
        ensures
            r.grammar_tokens@ == grammar_tokens@,
    {
        let grm_tokens = grammar_tokens.clone();
        Lexer { grammar_tokens: grm_tokens }
    }

    fn is_of_type(&self, element: &String, type_of: &str) -> (r: bool)
        ensures
            r == is_of_kind(self.grammar_tokens@, element@, type_of@),
    {
        self.grammar_tokens.is_of_type(element, type_of)
    }

    fn is_letter_or_dig(&self, character: char) -> (r: bool)
        ensures
            r == letter_or_digit(self.grammar_tokens@, character),
    {
        if self.grammar_tokens.char_is(character, "LETTER") {
            return true;
        } else if self.grammar_tokens.char_is(character, "NUMBER") {
            return true;
        }
        false
    }

    fn emit_word(&self, out: &mut Vec<Token>, built: &Vec<char>, current_line: u32)
        requires
            built@.len() > 0,
        ensures
            token_views(final(out)@) == token_views(old(out)@).push(
                word_token(self.grammar_tokens@, built@, current_line),
            ),
    {
        let s = string_of(built);
        let t = if self.is_of_type(&s, "KEYWORD") {
            Token::build(&s, TokenType::KeyWord, current_line)
        } else {
            Token::build(&s, TokenType::Identifier, current_line)
        };
        out.push(t);
        assert(token_views(out@) =~= token_views(old(out)@).push(
            word_token(self.grammar_tokens@, built@, current_line),
        ));
    }

    fn emit(&self, out: &mut Vec<Token>, text: &Vec<char>, token_type: TokenType, current_line: u32)
        ensures
            token_views(final(out)@) == token_views(old(out)@).push(
                tok(text@, token_type, current_line),
            ),
    {
        let s = string_of(text);
        out.push(Token::build(&s, token_type, current_line));
        assert(token_views(out@) =~= token_views(old(out)@).push(
            tok(text@, token_type, current_line),
        ));
    }

    /// The tokens of one whitespace-free word (never an error).
    pub fn tokenizer(&self, token: &str, current_line: u32) -> (r: Result<Vec<Token>, String>)
        ensures
            r is Ok,
            r matches Ok(v) ==> token_views(v@) == tokenize(
                self.grammar_tokens@,
                token@,
                current_line,
            ),
    {
        let ghost g = self.grammar_tokens@;
        let mut tokenized_vector_aux: Vec<Token> = Vec::new();
        let whole = String::from_str(token);
        if self.is_of_type(&whole, "KEYWORD") {
            tokenized_vector_aux.push(Token::build(&whole, TokenType::KeyWord, current_line));
            assert(token_views(tokenized_vector_aux@) =~= tokenize(g, token@, current_line));
            return Ok(tokenized_vector_aux);
        }
        let chars = chars_of(token);
        let mut builded_token: Vec<char> = Vec::new();
        let mut check_next = false;
        let mut i: usize = 0;
        assert(chars@.take(0) =~= Seq::<char>::empty());
        assert(token_views(tokenized_vector_aux@) =~= Seq::<TokenView>::empty());
        assert(builded_token@ =~= Seq::<char>::empty());
        while i < chars.len()
            invariant
                i <= chars.len(),
                chars@ == token@,
                g == self.grammar_tokens@,
                (ScanState {
                    out: token_views(tokenized_vector_aux@),
                    built: builded_token@,
                    check_next,
                }) == scan_run(g, chars@.take(i as int), current_line),
            decreases chars.len() - i,
        {
            let current = chars[i];
            assert(chars@.take(i + 1).drop_last() =~= chars@.take(i as int));
            let ld = self.is_letter_or_dig(current);
            if ld && !check_next {
                builded_token.push(current);
            } else if ld && check_next {
                check_next = false;
                self.emit(&mut tokenized_vector_aux, &builded_token, TokenType::Operator, current_line);
                builded_token = Vec::new();
                builded_token.push(current);
                assert(builded_token@ =~= seq![current]);
            } else if self.grammar_tokens.char_is_of_type(current, "SEPARATOR") && !check_next {
                if builded_token.len() > 0 {
                    self.emit_word(&mut tokenized_vector_aux, &builded_token, current_line);
                    builded_token = Vec::new();
                }
                let mut sep: Vec<char> = Vec::new();
                sep.push(current);
                assert(sep@ =~= seq![current]);
                self.emit(&mut tokenized_vector_aux, &sep, TokenType::Separator, current_line);
                assert(builded_token@ =~= Seq::<char>::empty());
            } else if self.grammar_tokens.char_is_of_type(current, "SEPARATOR") && check_next {
                check_next = false;
                self.emit(&mut tokenized_vector_aux, &builded_token, TokenType::Operator, current_line);
                builded_token = Vec::new();
                let mut sep: Vec<char> = Vec::new();
                sep.push(current);
                assert(sep@ =~= seq![current]);
                self.emit(&mut tokenized_vector_aux, &sep, TokenType::Separator, current_line);
                assert(builded_token@ =~= Seq::<char>::empty());
            } else if self.grammar_tokens.char_is_of_type(current, "OPERATOR") {
                let mut longer = string_of(&builded_token);
                push_char(&mut longer, current);
                if check_next && self.is_of_type(&longer, "OPERATOR") {
                    builded_token.push(current);
                    assert(builded_token@ =~= longer@);
                } else if check_next {
                    self.emit(&mut tokenized_vector_aux, &builded_token, TokenType::Operator, current_line);
                    builded_token = Vec::new();
                    builded_token.push(current);
                    assert(builded_token@ =~= seq![current]);
                } else {
                    if builded_token.len() > 0 {
                        self.emit_word(&mut tokenized_vector_aux, &builded_token, current_line);
                        builded_token = Vec::new();
                    }
                    builded_token.push(current);
                    assert(builded_token@ =~= seq![current]);
                    check_next = true;
                }
            }
            i += 1;
        }
        assert(chars@.take(chars.len() as int) =~= chars@);
        if builded_token.len() > 0 {
            if check_next {
                self.emit(&mut tokenized_vector_aux, &builded_token, TokenType::Operator, current_line);
            } else {
                self.emit_word(&mut tokenized_vector_aux, &builded_token, current_line);
            }
        }
        Ok(tokenized_vector_aux)
    }

    /// The tokens of the words of one line, word after word (never an error).
    pub fn scanner(&self, vectorized_line: &Vec<&str>, current_line: u32) -> (r: Result<Vec<Token>, String>)
        ensures
            r is Ok,
            r matches Ok(v) ==> token_views(v@) == scan_words(
                self.grammar_tokens@,
                vectorized_line@.map_values(|s: &str| s@),
                current_line,
            ),
    {
        let ghost g = self.grammar_tokens@;
        let ghost ws = vectorized_line@.map_values(|s: &str| s@);
        let mut tokenized_vector: Vec<Token> = Vec::new();
        let mut i: usize = 0;
        assert(ws.take(0) =~= Seq::<Seq<char>>::empty());
        while i < vectorized_line.len()
            invariant
                i <= vectorized_line.len(),
                ws == vectorized_line@.map_values(|s: &str| s@),
                g == self.grammar_tokens@,
                token_views(tokenized_vector@) == scan_words(g, ws.take(i as int), current_line),
            decreases vectorized_line.len() - i,
        {
            let token = vectorized_line[i];
            assert(ws.take(i + 1).drop_last() =~= ws.take(i as int));
            match self.tokenizer(token, current_line) {
                Ok(mut val) => {
                    let ghost before = token_views(tokenized_vector@);
                    let ghost add = token_views(val@);
                    tokenized_vector.append(&mut val);
                    assert(token_views(tokenized_vector@) =~= before + add);
                },
                Err(_) => {
                    return Err(String::from_str("Error en la lectura de los tokens."));
                },
            }
            i += 1;
        }
        assert(ws.take(vectorized_line.len() as int) =~= ws);
        Ok(tokenized_vector)
    }

    /// The tokens of a whole source text: its lines that carry code, numbered
    /// from 1, each cut at `//` and split at whitespace (never an error).
    pub fn read_file_lines(&self, file_content: &String) -> (r: Result<Vec<Token>, String>)
        requires
            kept_count(source_lines(file_content@)) < u32::MAX,
        ensures
            r is Ok,
            r matches Ok(v) ==> token_views(v@) == lex_source(self.grammar_tokens@, file_content@),
    {
        let ghost g = self.grammar_tokens@;
        let content = chars_of(file_content.as_str());
        let trimmed = trim_chars(&content);
        let all_lines = split_lines(&trimmed);
        let ghost ls = vec_views(all_lines@);
        let mut tokenized_vector: Vec<Token> = Vec::new();
        let mut current_line: u32 = 1;
        let mut i: usize = 0;
        assert(ls.skip(0) =~= ls);
        while i < all_lines.len()
            invariant
                i <= all_lines.len(),
                ls == vec_views(all_lines@),
                ls == source_lines(file_content@),
                g == self.grammar_tokens@,
                kept_count(ls) < u32::MAX,
                current_line + kept_count(ls.skip(i as int)) == 1 + kept_count(ls),
                token_views(tokenized_vector@) + lex_lines(g, ls.skip(i as int), current_line as nat)
                    == lex_source(g, file_content@),
            decreases all_lines.len() - i,
        {
            assert(ls.skip(i as int).drop_first() =~= ls.skip(i + 1));
            assert(ls.skip(i as int)[0] == all_lines@[i as int]@);
            let line = trim_chars(&all_lines[i]);
            if line.len() >= 2 && line[0] == '/' && line[1] == '/' {
                i += 1;
                continue ;
            }
            if line.len() == 0 {
                i += 1;
                continue ;
            }
            let code = code_chars(&line);
            let code_trimmed = trim_chars(&code);
            let word_chars = split_words(&code_trimmed);
            let mut word_strings: Vec<String> = Vec::new();
            let mut k: usize = 0;
            while k < word_chars.len()
                invariant
                    k <= word_chars.len(),
                    word_strings@.len() == k,
                    forall|j: int| 0 <= j < k ==> #[trigger] word_strings@[j]@ == word_chars@[j]@,
                decreases word_chars.len() - k,
            {
                word_strings.push(string_of(&word_chars[k]));
                k += 1;
            }
            let mut split_by_spaces: Vec<&str> = Vec::new();
            let mut k: usize = 0;
            while k < word_strings.len()
                invariant
                    k <= word_strings.len(),
                    split_by_spaces@.len() == k,
                    forall|j: int| 0 <= j < k ==> #[trigger] split_by_spaces@[j]@ == word_strings@[j]@,
                decreases word_strings.len() - k,
            {
                split_by_spaces.push(word_strings[k].as_str());
                k += 1;
            }
            assert(split_by_spaces@.map_values(|s: &str| s@) =~= line_words(ls[i as int]));
            let ghost before = token_views(tokenized_vector@);
            if let Ok(mut val) = self.scanner(&split_by_spaces, current_line) {
                let ghost add = token_views(val@);
                tokenized_vector.append(&mut val);
                assert(token_views(tokenized_vector@) =~= before + add);
            }
            current_line += 1;
            i += 1;
        }
        Ok(tokenized_vector)
    }
}

/// The grammar classifies `c` as a letter, digit, separator or operator.
pub open spec fn classified(g: Map<Seq<char>, Seq<char>>, c: char) -> bool {
    letter_or_digit(g, c) || separator(g, c) || operator(g, c)
}

/// The characters of `w` that the grammar classifies, in order.
pub open spec fn classified_chars(g: Map<Seq<char>, Seq<char>>, w: Seq<char>) -> Seq<char>
    decreases w.len(),
{
    if w.len() == 0 {
        seq![]
    } else if classified(g, w.last()) {
        classified_chars(g, w.drop_last()).push(w.last())
    } else {
        classified_chars(g, w.drop_last())
    }
}

/// The values of `ts` written one after the other.
pub open spec fn joined_values(ts: Seq<TokenView>) -> Seq<char>
    decreases ts.len(),
{
    if ts.len() == 0 {
        seq![]
    } else {
        joined_values(ts.drop_last()) + ts.last().value
    }
}

/// Every character of `v` occurs in `w`.
pub open spec fn chars_within(v: Seq<char>, w: Seq<char>) -> bool {
    forall|j: int| 0 <= j < v.len() ==> w.contains(#[trigger] v[j])
}

/// A token as the lexer makes them: a value that is not empty and holds no
/// whitespace, at column 0.
pub open spec fn well_formed_token(t: TokenView) -> bool {
    &&& t.value.len() > 0
    &&& forall|j: int| 0 <= j < t.value.len() ==> !is_white(#[trigger] t.value[j])
    &&& t.column == 0
}

proof fn lemma_scan_run_shape(g: Map<Seq<char>, Seq<char>>, w: Seq<char>, line: u32)
    ensures
        ({
            let st = scan_run(g, w, line);
            &&& st.check_next ==> st.built.len() > 0
            &&& chars_within(st.built, w)
            &&& forall|k: int|
                0 <= k < st.out.len() ==> {
                    &&& (#[trigger] st.out[k]).value.len() > 0
                    &&& chars_within(st.out[k].value, w)
                    &&& st.out[k].line == line
                    &&& st.out[k].column == 0
                }
            &&& joined_values(st.out) + st.built == classified_chars(g, w)
        }),
    decreases w.len(),
{
    if w.len() > 0 {
        let p = w.drop_last();
        let c = w.last();
        lemma_scan_run_shape(g, p, line);
        let st = scan_run(g, p, line);
        assert forall|x: char| p.contains(x) implies w.contains(x) by {
            let j = choose|j: int| 0 <= j < p.len() && p[j] == x;
            assert(w[j] == x);
        }
        assert(w.contains(c)) by {
            assert(w[w.len() - 1] == c);
        }
        let word = word_token(g, st.built, line);
        assert(joined_values(st.out.push(word)) == joined_values(st.out) + st.built) by {
            assert(st.out.push(word).drop_last() =~= st.out);
        }
        assert(joined_values(st.out.push(tok(st.built, TokenType::Operator, line)))
            == joined_values(st.out) + st.built) by {
            assert(st.out.push(tok(st.built, TokenType::Operator, line)).drop_last() =~= st.out);
        }
        let fl = flush(g, st, line);
        assert(joined_values(fl) == joined_values(st.out) + st.built) by {
            if st.built.len() == 0 {
                assert(joined_values(st.out) + st.built =~= joined_values(st.out));
            }
        }
        let sep = tok(seq![c], TokenType::Separator, line);
        assert(joined_values(fl.push(sep)) == joined_values(fl) + seq![c]) by {
            assert(fl.push(sep).drop_last() =~= fl);
        }
        let opd = st.out.push(tok(st.built, TokenType::Operator, line));
        assert(joined_values(opd.push(sep)) == joined_values(opd) + seq![c]) by {
            assert(opd.push(sep).drop_last() =~= opd);
        }
        let nst = scan_run(g, w, line);
        assert(w.drop_last() == p);
        assert(joined_values(nst.out) + nst.built =~= classified_chars(g, w));
        assert forall|k: int| 0 <= k < nst.out.len() implies {
            &&& (#[trigger] nst.out[k]).value.len() > 0
            &&& chars_within(nst.out[k].value, w)
            &&& nst.out[k].line == line
            &&& nst.out[k].column == 0
        } by {
            if k < st.out.len() {
                assert(nst.out[k] == st.out[k]);
            }
        }
    }
}

/// Lexing a word loses nothing and adds nothing: when `w` is not a keyword,
/// the values of its tokens, written one after the other, are exactly the
/// characters of `w` that the grammar classifies; and every token is
/// non-empty, made of characters of `w`, on `line`, at column 0.
pub proof fn law_tokenize_keeps_classified_chars(g: Map<Seq<char>, Seq<char>>, w: Seq<char>, line: u32)
    ensures
        !is_of_kind(g, w, "KEYWORD"@) ==> joined_values(tokenize(g, w, line)) == classified_chars(
            g,
            w,
        ),
        w.len() > 0 ==> forall|k: int|
            0 <= k < tokenize(g, w, line).len() ==> {
                &&& (#[trigger] tokenize(g, w, line)[k]).value.len() > 0
                &&& chars_within(tokenize(g, w, line)[k].value, w)
                &&& tokenize(g, w, line)[k].line == line
                &&& tokenize(g, w, line)[k].column == 0
            },
{
    lemma_scan_run_shape(g, w, line);
    let st = scan_run(g, w, line);
    if !is_of_kind(g, w, "KEYWORD"@) {
        if st.built.len() > 0 {
            let word = word_token(g, st.built, line);
            assert(st.out.push(word).drop_last() =~= st.out);
            let op = tok(st.built, TokenType::Operator, line);
            assert(st.out.push(op).drop_last() =~= st.out);
        } else {
            assert(joined_values(st.out) + st.built =~= joined_values(st.out));
        }
    }
    if w.len() > 0 && is_of_kind(g, w, "KEYWORD"@) {
        assert forall|j: int| 0 <= j < w.len() implies w.contains(#[trigger] w[j]) by {}
    }
}

proof fn lemma_word_state_shape(s: Seq<char>)
    ensures
        ({
            let st = word_state(s);
            &&& forall|j: int| 0 <= j < st.1.len() ==> !is_white(#[trigger] st.1[j])
            &&& forall|k: int|
                0 <= k < st.0.len() ==> (#[trigger] st.0[k]).len() > 0 && forall|j: int|
                    0 <= j < st.0[k].len() ==> !is_white(#[trigger] st.0[k][j])
        }),
    decreases s.len(),
{
    if s.len() > 0 {
        lemma_word_state_shape(s.drop_last());
        let prev = word_state(s.drop_last());
        let st = word_state(s);
        if is_white(s.last()) && prev.1.len() > 0 {
            assert(st.0 == prev.0.push(prev.1));
            assert(forall|k: int| 0 <= k < prev.0.len() ==> st.0[k] == prev.0[k]);
            assert(st.0[prev.0.len() as int] == prev.1);
        } else if !is_white(s.last()) {
            assert(forall|j: int| 0 <= j < prev.1.len() ==> st.1[j] == prev.1[j]);
        }
    }
}

/// The words of a text are not empty and hold no whitespace.
pub proof fn law_words_are_solid(s: Seq<char>)
    ensures
        forall|k: int|
            0 <= k < words(s).len() ==> (#[trigger] words(s)[k]).len() > 0 && forall|j: int|
                0 <= j < words(s)[k].len() ==> !is_white(#[trigger] words(s)[k][j]),
{
    lemma_word_state_shape(s);
    let st = word_state(s);
    if st.1.len() > 0 {
        assert(forall|k: int| 0 <= k < st.0.len() ==> words(s)[k] == st.0[k]);
        assert(words(s)[st.0.len() as int] == st.1);
    }
}

proof fn lemma_scan_words_well_formed(g: Map<Seq<char>, Seq<char>>, ws: Seq<Seq<char>>, line: u32)
    requires
        forall|k: int|
            0 <= k < ws.len() ==> (#[trigger] ws[k]).len() > 0 && forall|j: int|
                0 <= j < ws[k].len() ==> !is_white(#[trigger] ws[k][j]),
    ensures
        forall|k: int|
            0 <= k < scan_words(g, ws, line).len() ==> well_formed_token(
                #[trigger] scan_words(g, ws, line)[k],
            ) && scan_words(g, ws, line)[k].line == line,
    decreases ws.len(),
{
    if ws.len() > 0 {
        let w = ws.last();
        assert(ws[ws.len() - 1] == w);
        assert(forall|k: int| 0 <= k < ws.drop_last().len() ==> ws.drop_last()[k] == ws[k]);
        lemma_scan_words_well_formed(g, ws.drop_last(), line);
        law_tokenize_keeps_classified_chars(g, w, line);
        let a = scan_words(g, ws.drop_last(), line);
        let b = tokenize(g, w, line);
        assert forall|k: int| 0 <= k < b.len() implies well_formed_token(#[trigger] b[k]) && b[k].line
            == line by {
            assert forall|j: int| 0 <= j < b[k].value.len() implies !is_white(
                #[trigger] b[k].value[j],
            ) by {
                assert(w.contains(b[k].value[j]));
            }
        }
        assert forall|k: int| 0 <= k < (a + b).len() implies well_formed_token(#[trigger] (a
            + b)[k]) && (a + b)[k].line == line by {
            if k >= a.len() {
                assert((a + b)[k] == b[k - a.len()]);
            }
        }
    }
}

proof fn lemma_lex_lines_well_formed(g: Map<Seq<char>, Seq<char>>, ls: Seq<Seq<char>>, line: nat)
    requires
        line >= 1,
        line + kept_count(ls) <= u32::MAX,
    ensures
        forall|k: int|
            0 <= k < lex_lines(g, ls, line).len() ==> well_formed_token(
                #[trigger] lex_lines(g, ls, line)[k],
            ) && lex_lines(g, ls, line)[k].line >= 1,
    decreases ls.len(),
{
    if ls.len() > 0 {
        if kept_line(ls[0]) {
            lemma_lex_lines_well_formed(g, ls.drop_first(), line + 1);
            law_words_are_solid(trim(code_part(trim(ls[0]))));
            lemma_scan_words_well_formed(g, line_words(ls[0]), line as u32);
            let a = scan_words(g, line_words(ls[0]), line as u32);
            let b = lex_lines(g, ls.drop_first(), line + 1);
            assert forall|k: int| 0 <= k < (a + b).len() implies well_formed_token(#[trigger] (a
                + b)[k]) && (a + b)[k].line >= 1 by {
                if k >= a.len() {
                    assert((a + b)[k] == b[k - a.len()]);
                }
            }
        } else {
            lemma_lex_lines_well_formed(g, ls.drop_first(), line);
        }
    }
}

/// Every token the lexer makes of a source text has a value that is not
/// empty and holds no whitespace, a line number of at least 1, and column 0.
pub proof fn law_source_tokens_well_formed(g: Map<Seq<char>, Seq<char>>, content: Seq<char>)
    requires
        kept_count(source_lines(content)) < u32::MAX,
    ensures
        forall|k: int|
            0 <= k < lex_source(g, content).len() ==> well_formed_token(
                #[trigger] lex_source(g, content)[k],
            ) && lex_source(g, content)[k].line >= 1,
{
    lemma_lex_lines_well_formed(g, source_lines(content), 1);
}

/// The tokens of a line's words taken in two parts are those of the first
/// part followed by those of the second: each word is lexed on its own.
pub proof fn law_scan_words_concat(
    g: Map<Seq<char>, Seq<char>>,
    a: Seq<Seq<char>>,
    b: Seq<Seq<char>>,
    line: u32,
)
    ensures
        scan_words(g, a + b, line) == scan_words(g, a, line) + scan_words(g, b, line),
    decreases b.len(),
{
    if b.len() == 0 {
        assert(a + b =~= a);
        assert(scan_words(g, a, line) + scan_words(g, b, line) =~= scan_words(g, a, line));
    } else {
        assert((a + b).drop_last() =~= a + b.drop_last());
        assert((a + b).last() == b.last());
        law_scan_words_concat(g, a, b.drop_last(), line);
        assert(scan_words(g, a, line) + scan_words(g, b, line) =~= scan_words(g, a, line)
            + scan_words(g, b.drop_last(), line) + tokenize(g, b.last(), line));
    }
}

/// A scan state whose emitted tokens come after `p`.
pub open spec fn after(p: Seq<TokenView>, st: ScanState) -> ScanState {
    ScanState { out: p + st.out, built: st.built, check_next: st.check_next }
}

proof fn lemma_step_after(
    g: Map<Seq<char>, Seq<char>>,
    p: Seq<TokenView>,
    st: ScanState,
    c: char,
    line: u32,
)
    ensures
        scan_step(g, after(p, st), c, line) == after(p, scan_step(g, st, c, line)),
{
    let x = tok(st.built, TokenType::Operator, line);
    let w = word_token(g, st.built, line);
    let sep = tok(seq![c], TokenType::Separator, line);
    assert((p + st.out).push(x) =~= p + st.out.push(x));
    assert((p + st.out).push(w) =~= p + st.out.push(w));
    assert((p + st.out).push(sep) =~= p + st.out.push(sep));
    assert((p + st.out).push(x).push(sep) =~= p + st.out.push(x).push(sep));
    assert((p + st.out).push(w).push(sep) =~= p + st.out.push(w).push(sep));
    assert(flush(g, after(p, st), line) =~= p + flush(g, st, line));
}

proof fn lemma_scan_run_after(g: Map<Seq<char>, Seq<char>>, w1: Seq<char>, w2: Seq<char>, line: u32)
    requires
        scan_run(g, w1, line).built.len() == 0,
        !scan_run(g, w1, line).check_next,
    ensures
        scan_run(g, w1 + w2, line) == after(scan_run(g, w1, line).out, scan_run(g, w2, line)),
    decreases w2.len(),
{
    let o1 = scan_run(g, w1, line).out;
    if w2.len() == 0 {
        assert(w1 + w2 =~= w1);
        assert(scan_run(g, w2, line).out =~= Seq::<TokenView>::empty());
        assert(o1 + scan_run(g, w2, line).out =~= o1);
        assert(scan_run(g, w1, line).built =~= scan_run(g, w2, line).built);
    } else {
        assert((w1 + w2).drop_last() =~= w1 + w2.drop_last());
        assert((w1 + w2).last() == w2.last());
        lemma_scan_run_after(g, w1, w2.drop_last(), line);
        lemma_step_after(g, o1, scan_run(g, w2.drop_last(), line), w2.last(), line);
        assert(scan_run(g, w1 + w2, line) == scan_step(g, scan_run(g, w1 + w2.drop_last(), line), w2.last(), line));
        assert(scan_run(g, w2, line) == scan_step(g, scan_run(g, w2.drop_last(), line), w2.last(), line));
    }
}

/// A separator leaves nothing pending: a word that ends with a separator,
/// followed by another word, is lexed as the two words one after the other.
/// Neither the first word nor the joined word is a keyword; the second may
/// be one if, as Jay's keywords, it is made of letters and digits.
pub proof fn law_tokenize_splits_after_separator(
    g: Map<Seq<char>, Seq<char>>,
    w1: Seq<char>,
    w2: Seq<char>,
    line: u32,
)
    requires
        w1.len() > 0,
        separator(g, w1.last()),
        !is_of_kind(g, w1, "KEYWORD"@),
        is_of_kind(g, w2, "KEYWORD"@) ==> w2.len() > 0 && forall|j: int|
            0 <= j < w2.len() ==> letter_or_digit(g, #[trigger] w2[j]),
        !is_of_kind(g, w1 + w2, "KEYWORD"@),
    ensures
        tokenize(g, w1 + w2, line) == tokenize(g, w1, line) + tokenize(g, w2, line),
{
    reveal_strlit("LETTER");
    reveal_strlit("NUMBER");
    reveal_strlit("SEPARATOR");
    let c = w1.last();
    assert(!letter_or_digit(g, c)) by {
        if letter_or_digit(g, c) {
            let i = choose|i: int|
                0 <= i && i + "SEPARATOR"@.len() <= g[seq![c]].len() && #[trigger] g[seq![
                    c
                ]].subrange(i, i + "SEPARATOR"@.len()) == "SEPARATOR"@;
        }
    }
    let st1 = scan_run(g, w1, line);
    assert(st1.built.len() == 0 && !st1.check_next);
    lemma_scan_run_after(g, w1, w2, line);
    let st2 = scan_run(g, w2, line);
    assert(flush(g, after(st1.out, st2), line) =~= st1.out + flush(g, st2, line));
    if is_of_kind(g, w2, "KEYWORD"@) {
        lemma_scan_word_chars(g, w2, line);
        assert(flush(g, st2, line) =~= seq![tok(w2, TokenType::KeyWord, line)]);
    }
}

proof fn lemma_scan_word_chars(g: Map<Seq<char>, Seq<char>>, w: Seq<char>, line: u32)
    requires
        forall|j: int| 0 <= j < w.len() ==> letter_or_digit(g, #[trigger] w[j]),
    ensures
        scan_run(g, w, line) == (ScanState { out: seq![], built: w, check_next: false }),
    decreases w.len(),
{
    if w.len() == 0 {
        assert(scan_run(g, w, line).built =~= w);
    } else {
        let p = w.drop_last();
        assert forall|j: int| 0 <= j < p.len() implies letter_or_digit(g, #[trigger] p[j]) by {
            assert(p[j] == w[j]);
        }
        lemma_scan_word_chars(g, p, line);
        assert(letter_or_digit(g, w[w.len() - 1]));
        assert(p.push(w.last()) =~= w);
    }
}

/// Lines that carry no code (blank or comment lines) add no tokens: the
/// tokens of lines with one such line among them are those of the lines
/// without it, numbered alike.
pub proof fn law_uncoded_line_adds_nothing(
    g: Map<Seq<char>, Seq<char>>,
    a: Seq<Seq<char>>,
    l: Seq<char>,
    b: Seq<Seq<char>>,
    line: nat,
)
    requires
        !kept_line(l),
    ensures
        lex_lines(g, a + seq![l] + b, line) == lex_lines(g, a + b, line),
    decreases a.len(),
{
    if a.len() == 0 {
        assert(a + seq![l] + b =~= seq![l] + b);
        assert((seq![l] + b).drop_first() =~= b);
        assert(a + b =~= b);
    } else {
        assert((a + seq![l] + b).drop_first() =~= a.drop_first() + seq![l] + b);
        assert((a + b).drop_first() =~= a.drop_first() + b);
        assert((a + seq![l] + b)[0] == a[0]);
        assert((a + b)[0] == a[0]);
        law_uncoded_line_adds_nothing(g, a.drop_first(), l, b, line + 1);
        law_uncoded_line_adds_nothing(g, a.drop_first(), l, b, line);
    }
}

/// `x` holds no comment marker `//`.
pub open spec fn no_comment_mark(x: Seq<char>) -> bool {
    forall|j: int| 0 <= j < x.len() - 1 ==> !(#[trigger] x[j] == '/' && x[j + 1] == '/')
}

proof fn lemma_trim_start_concat(x: Seq<char>, y: Seq<char>)
    ensures
        trim_start(x).len() > 0 ==> trim_start(x + y) == trim_start(x) + y,
        trim_start(x).len() == 0 ==> trim_start(x + y) == trim_start(y),
        no_comment_mark(x) ==> no_comment_mark(trim_start(x)),
        trim_start(x).len() > 0 ==> !is_white(trim_start(x)[0]),
    decreases x.len(),
{
    if x.len() == 0 {
        assert(x + y =~= y);
    } else {
        assert((x + y)[0] == x[0]);
        if is_white(x[0]) {
            assert((x + y).drop_first() =~= x.drop_first() + y);
            assert(no_comment_mark(x) ==> no_comment_mark(x.drop_first())) by {
                if no_comment_mark(x) {
                    assert forall|j: int| 0 <= j < x.drop_first().len() - 1 implies !(
                    #[trigger] x.drop_first()[j] == '/' && x.drop_first()[j + 1] == '/') by {
                        assert(x.drop_first()[j] == x[j + 1]);
                        assert(x.drop_first()[j + 1] == x[j + 2]);
                    }
                }
            }
            lemma_trim_start_concat(x.drop_first(), y);
        }
    }
}

proof fn lemma_trim_end_concat(x: Seq<char>, t: Seq<char>)
    requires
        x.len() > 0,
        !is_white(x.last()),
    ensures
        trim_end(x + t) == x + trim_end(t),
    decreases t.len(),
{
    if t.len() == 0 {
        assert(x + t =~= x);
        assert(x + trim_end(t) =~= x);
    } else {
        assert((x + t).last() == t.last());
        if is_white(t.last()) {
            assert((x + t).drop_last() =~= x + t.drop_last());
            lemma_trim_end_concat(x, t.drop_last());
        }
    }
}

proof fn lemma_trim_end_prefix(x: Seq<char>)
    requires
        x.len() > 0,
        !is_white(x[0]),
    ensures
        trim_end(x).len() > 0,
        trim_end(x)[0] == x[0],
        trim_end(trim_end(x)) == trim_end(x),
        no_comment_mark(x) ==> no_comment_mark(trim_end(x)),
        trim_end(x).len() <= x.len(),
        forall|j: int| 0 <= j < trim_end(x).len() ==> trim_end(x)[j] == x[j],
        !is_white(trim_end(x).last()),
    decreases x.len(),
{
    if is_white(x.last()) {
        let p = x.drop_last();
        assert(p.len() > 0);
        assert(p[0] == x[0]);
        lemma_trim_end_prefix(p);
        assert forall|j: int| 0 <= j < trim_end(x).len() implies trim_end(x)[j] == x[j] by {
            assert(p[j] == x[j]);
        }
        if no_comment_mark(x) {
            assert forall|j: int| 0 <= j < p.len() - 1 implies !(#[trigger] p[j] == '/' && p[j + 1]
                == '/') by {
                assert(p[j] == x[j] && p[j + 1] == x[j + 1]);
            }
        }
    }
}

proof fn lemma_code_part_whole(x: Seq<char>)
    requires
        no_comment_mark(x),
    ensures
        code_part(x) == x,
    decreases x.len(),
{
    if x.len() > 0 {
        assert(!starts_comment(x)) by {
            if x.len() >= 2 {
                assert(!(x[0] == '/' && x[1] == '/'));
            }
        }
        let d = x.drop_first();
        assert forall|j: int| 0 <= j < d.len() - 1 implies !(#[trigger] d[j] == '/' && d[j + 1]
            == '/') by {
            assert(d[j] == x[j + 1] && d[j + 1] == x[j + 2]);
        }
        lemma_code_part_whole(d);
        assert(x =~= seq![x[0]] + d);
    }
}

proof fn lemma_code_part_before_mark(x: Seq<char>, z: Seq<char>)
    requires
        no_comment_mark(x),
        x.len() > 0 ==> x.last() != '/',
    ensures
        code_part(x + seq!['/', '/'] + z) == x,
    decreases x.len(),
{
    let u = x + seq!['/', '/'] + z;
    if x.len() == 0 {
        assert(u =~= seq!['/', '/'] + z);
        assert(starts_comment(u));
    } else {
        assert(u[0] == x[0]);
        assert(!starts_comment(u)) by {
            if x.len() >= 2 {
                assert(u[1] == x[1]);
                assert(!(x[0] == '/' && x[1] == '/'));
            } else {
                assert(u[1] == '/');
                assert(x[0] == x.last());
            }
        }
        let d = x.drop_first();
        assert(u.drop_first() =~= d + seq!['/', '/'] + z);
        assert forall|j: int| 0 <= j < d.len() - 1 implies !(#[trigger] d[j] == '/' && d[j + 1]
            == '/') by {
            assert(d[j] == x[j + 1] && d[j + 1] == x[j + 2]);
        }
        if d.len() > 0 {
            assert(d.last() == x.last());
        }
        lemma_code_part_before_mark(d, z);
        assert(x =~= seq![x[0]] + d);
    }
}

/// Text after `//` carries no tokens: a line that holds no `//`, with a
/// space, `//` and any text put after it, carries code exactly when the
/// line does, and then has the same words.
pub proof fn law_trailing_comment_adds_nothing(l: Seq<char>, t: Seq<char>)
    requires
        no_comment_mark(l),
    ensures
        kept_line(l + seq![' ', '/', '/'] + t) == kept_line(l),
        kept_line(l) ==> line_words(l + seq![' ', '/', '/'] + t) == line_words(l),
{
    let c = seq![' ', '/', '/'];
    let u = l + c + t;
    assert(u =~= l + (c + t));
    lemma_trim_start_concat(l, c + t);
    let a = trim_start(l);
    if a.len() == 0 {
        lemma_trim_start_concat(seq![' '], seq!['/', '/'] + t);
        assert(seq![' '] + (seq!['/', '/'] + t) =~= c + t);
        assert(seq![' '].drop_first() =~= Seq::<char>::empty());
        assert(trim_start(seq![' ']).len() == 0) by {
            assert(is_white(' '));
            assert(seq![' '][0] == ' ');
            assert(trim_start(seq![' ']) == trim_start(seq![' '].drop_first()));
            assert(trim_start(Seq::<char>::empty()) == Seq::<char>::empty());
        }
        assert(trim_start(c + t) == seq!['/', '/'] + t) by {
            assert(trim_start(Seq::<char>::empty() + (seq!['/', '/'] + t)) == trim_start(seq!['/', '/'] + t)) by {
                assert(Seq::<char>::empty() + (seq!['/', '/'] + t) =~= seq!['/', '/'] + t);
            }
            assert((seq!['/', '/'] + t)[0] == '/');
        }
        lemma_trim_end_concat(seq!['/', '/'], t);
        assert(trim(u) == seq!['/', '/'] + trim_end(t));
        assert(trim(u)[0] == '/' && trim(u)[1] == '/');
        assert(trim(l) =~= Seq::<char>::empty());
    } else {
        assert(trim_start(u) == a + (c + t));
        let x = a + c;
        assert(a + (c + t) =~= x + t);
        assert(x.last() == '/');
        lemma_trim_end_concat(x, t);
        assert(trim(u) == x + trim_end(t));
        lemma_trim_end_prefix(a);
        let e = trim_end(a);
        assert(trim(l) == e);
        // the line is kept
        assert(trim(u)[0] == a[0]);
        assert(!starts_comment(trim(u))) by {
            if a.len() >= 2 {
                assert(trim(u)[1] == a[1]);
                assert(!(a[0] == '/' && a[1] == '/'));
            } else {
                assert(trim(u)[1] == ' ');
            }
        }
        assert(!starts_comment(e)) by {
            if e.len() >= 2 {
                assert(e[0] == a[0] && e[1] == a[1]);
                assert(!(a[0] == '/' && a[1] == '/'));
            }
        }
        // the words
        let xs = a + seq![' '];
        assert(x + trim_end(t) =~= xs + seq!['/', '/'] + trim_end(t));
        assert(no_comment_mark(xs)) by {
            assert forall|j: int| 0 <= j < xs.len() - 1 implies !(#[trigger] xs[j] == '/' && xs[j
                + 1] == '/') by {
                if j + 1 < a.len() {
                    assert(xs[j] == a[j] && xs[j + 1] == a[j + 1]);
                } else {
                    assert(xs[j + 1] == ' ');
                }
            }
        }
        lemma_code_part_before_mark(xs, trim_end(t));
        assert(code_part(trim(u)) == xs);
        lemma_trim_start_concat(a, seq![' ']);
        lemma_trim_start_concat(e, Seq::<char>::empty());
        assert(trim_start(a) == a) by {
            lemma_trim_start_concat(a, Seq::<char>::empty());
        }
        assert(trim_start(xs) == xs);
        assert(trim_end(xs) == trim_end(a)) by {
            assert(xs.drop_last() =~= a);
            assert(is_white(' '));
        }
        lemma_code_part_whole(e);
        assert(trim_start(e) == e) by {
            assert(e + Seq::<char>::empty() =~= e);
        }
        assert(trim(code_part(trim(l))) == e);
        assert(trim(code_part(trim(u))) == e);
    }
}

/// Lines with the same code give the same tokens: replacing a line by one
/// that carries code exactly when it does, with the same words, leaves the
/// tokens of the lines as they were.
pub proof fn law_lines_with_same_words(
    g: Map<Seq<char>, Seq<char>>,
    a: Seq<Seq<char>>,
    l0: Seq<char>,
    l1: Seq<char>,
    b: Seq<Seq<char>>,
    line: nat,
)
    requires
        kept_line(l0) == kept_line(l1),
        kept_line(l0) ==> line_words(l0) == line_words(l1),
    ensures
        lex_lines(g, a + seq![l1] + b, line) == lex_lines(g, a + seq![l0] + b, line),
    decreases a.len(),
{
    let s0 = a + seq![l0] + b;
    let s1 = a + seq![l1] + b;
    if a.len() == 0 {
        assert(s0[0] == l0 && s1[0] == l1);
        assert(s0.drop_first() =~= b && s1.drop_first() =~= b);
    } else {
        assert(s0.drop_first() =~= a.drop_first() + seq![l0] + b);
        assert(s1.drop_first() =~= a.drop_first() + seq![l1] + b);
        assert(s0[0] == a[0] && s1[0] == a[0]);
        law_lines_with_same_words(g, a.drop_first(), l0, l1, b, line + 1);
        law_lines_with_same_words(g, a.drop_first(), l0, l1, b, line);
    }
}

proof fn lemma_line_state_after(x: Seq<char>, y: Seq<char>)
    requires
        x.len() == 0 || x.last() == '\n',
    ensures
        line_state(x + y) == (line_state(x).0 + line_state(y).0, line_state(y).1),
    decreases y.len(),
{
    if y.len() == 0 {
        assert(x + y =~= x);
        assert(line_state(x).0 + line_state(y).0 =~= line_state(x).0);
        assert(line_state(x).1 =~= line_state(y).1);
    } else {
        assert((x + y).drop_last() =~= x + y.drop_last());
        assert((x + y).last() == y.last());
        lemma_line_state_after(x, y.drop_last());
        let a = line_state(x).0;
        let py = line_state(y.drop_last());
        assert((a + py.0).push(strip_cr(py.1)) =~= a + py.0.push(strip_cr(py.1)));
    }
}

proof fn lemma_one_line(l: Seq<char>)
    requires
        forall|j: int| 0 <= j < l.len() ==> #[trigger] l[j] != '\n' && l[j] != '\r',
    ensures
        line_state(l + seq!['\n']) == (seq![l], Seq::<char>::empty()),
{
    assert(forall|k: int| 0 <= k <= l.len() ==> #[trigger] line_state(l.take(k)) == (
    Seq::<Seq<char>>::empty(), l.take(k))) by {
        assert forall|k: int| 0 <= k <= l.len() implies #[trigger] line_state(l.take(k)) == (
        Seq::<Seq<char>>::empty(), l.take(k)) by {
            lemma_line_prefix(l, k);
        }
    }
    assert(l.take(l.len() as int) =~= l);
    assert(line_state(l) == (Seq::<Seq<char>>::empty(), l));
    assert((l + seq!['\n']).drop_last() =~= l);
    assert((l + seq!['\n']).last() == '\n');
    if l.len() > 0 {
        assert(l.last() == l[l.len() - 1]);
    }
    assert(strip_cr(l) == l);
    assert(Seq::<Seq<char>>::empty().push(l) =~= seq![l]);
}

proof fn lemma_line_prefix(l: Seq<char>, k: int)
    requires
        0 <= k <= l.len(),
        forall|j: int| 0 <= j < l.len() ==> #[trigger] l[j] != '\n' && l[j] != '\r',
    ensures
        line_state(l.take(k)) == (Seq::<Seq<char>>::empty(), l.take(k)),
    decreases k,
{
    if k > 0 {
        lemma_line_prefix(l, k - 1);
        assert(l.take(k).drop_last() =~= l.take(k - 1));
        assert(l.take(k).last() == l[k - 1]);
        assert(l.take(k - 1).push(l[k - 1]) =~= l.take(k));
    } else {
        assert(l.take(0) =~= Seq::<char>::empty());
    }
}

proof fn lemma_source_lines_around(p: Seq<char>, m: Seq<char>, q: Seq<char>)
    requires
        p.len() > 0,
        !is_white(p[0]),
        p.last() == '\n',
        q.len() > 0,
        !is_white(q.last()),
        forall|j: int| 0 <= j < m.len() ==> #[trigger] m[j] != '\n' && m[j] != '\r',
    ensures
        source_lines(p + m + seq!['\n'] + q) == line_state(p).0 + seq![m] + lines(q),
        source_lines(p + q) == line_state(p).0 + lines(q),
{
    let c1 = p + m + seq!['\n'] + q;
    let c0 = p + q;
    assert(c1[0] == p[0] && c0[0] == p[0]);
    assert(c1.last() == q.last() && c0.last() == q.last());
    assert(trim_start(c1) == c1);
    assert(trim_start(c0) == c0);
    assert(trim_end(c1) == c1);
    assert(trim_end(c0) == c0);
    lemma_one_line(m);
    let mq = m + seq!['\n'];
    assert(c1 =~= p + (mq + q));
    lemma_line_state_after(p, mq + q);
    lemma_line_state_after(mq, q);
    lemma_line_state_after(p, q);
    assert(seq![m] + line_state(q).0 =~= Seq::<Seq<char>>::empty().push(m) + line_state(q).0);
    let a = line_state(p).0;
    assert((a + (seq![m] + line_state(q).0)).push(line_state(q).1) =~= a + seq![m] + line_state(
        q,
    ).0.push(line_state(q).1));
    assert(a + (seq![m] + line_state(q).0) =~= a + seq![m] + line_state(q).0);
    assert((a + line_state(q).0).push(line_state(q).1) =~= a + line_state(q).0.push(
        line_state(q).1,
    ));
}

/// A blank or comment line put between two lines of a source text adds no
/// tokens: the text with it is lexed as the text without it.
pub proof fn law_uncoded_line_in_source(
    g: Map<Seq<char>, Seq<char>>,
    p: Seq<char>,
    l: Seq<char>,
    q: Seq<char>,
)
    requires
        p.len() > 0,
        !is_white(p[0]),
        p.last() == '\n',
        q.len() > 0,
        !is_white(q.last()),
        forall|j: int| 0 <= j < l.len() ==> #[trigger] l[j] != '\n' && l[j] != '\r',
        !kept_line(l),
    ensures
        lex_source(g, p + l + seq!['\n'] + q) == lex_source(g, p + q),
{
    lemma_source_lines_around(p, l, q);
    law_uncoded_line_adds_nothing(g, line_state(p).0, l, lines(q), 1);
}

/// A comment after the code of a line of a source text adds no tokens: a
/// line holding no `//`, with ` //` and any text put after it, leaves the
/// tokens of the text as they were.
pub proof fn law_trailing_comment_in_source(
    g: Map<Seq<char>, Seq<char>>,
    p: Seq<char>,
    l: Seq<char>,
    t: Seq<char>,
    q: Seq<char>,
)
    requires
        p.len() > 0,
        !is_white(p[0]),
        p.last() == '\n',
        q.len() > 0,
        !is_white(q.last()),
        forall|j: int| 0 <= j < l.len() ==> #[trigger] l[j] != '\n' && l[j] != '\r',
        forall|j: int| 0 <= j < t.len() ==> #[trigger] t[j] != '\n' && t[j] != '\r',
        no_comment_mark(l),
    ensures
        lex_source(g, p + (l + seq![' ', '/', '/'] + t) + seq!['\n'] + q) == lex_source(
            g,
            p + l + seq!['\n'] + q,
        ),
{
    let l1 = l + seq![' ', '/', '/'] + t;
    assert forall|j: int| 0 <= j < l1.len() implies #[trigger] l1[j] != '\n' && l1[j] != '\r' by {
        if j < l.len() {
            assert(l1[j] == l[j]);
        } else if j >= l.len() + 3 {
            assert(l1[j] == t[j - l.len() - 3]);
        }
    }
    lemma_source_lines_around(p, l, q);
    lemma_source_lines_around(p, l1, q);
    law_trailing_comment_adds_nothing(l, t);
    law_lines_with_same_words(g, line_state(p).0, l, l1, lines(q), 1);
}

/// The kinds of the lexer's tokens: a word of letters and digits is one
/// token, a keyword if the grammar says so and else an identifier; a lone
/// separator is one separator token; an operator of the grammar of one or
/// two operator characters is one operator token.
pub proof fn law_token_kinds(g: Map<Seq<char>, Seq<char>>, w: Seq<char>, line: u32)
    ensures
        w.len() > 0 && (forall|j: int| 0 <= j < w.len() ==> letter_or_digit(g, #[trigger] w[j]))
            ==> tokenize(g, w, line) == seq![
            tok(
                w,
                if is_of_kind(g, w, "KEYWORD"@) {
                    TokenType::KeyWord
                } else {
                    TokenType::Identifier
                },
                line,
            ),
        ],
        w.len() == 1 && separator(g, w[0]) && !letter_or_digit(g, w[0]) && !is_of_kind(
            g,
            w,
            "KEYWORD"@,
        ) ==> tokenize(g, w, line) == seq![tok(w, TokenType::Separator, line)],
        w.len() == 1 && operator(g, w[0]) && !letter_or_digit(g, w[0]) && !separator(g, w[0])
            && !is_of_kind(g, w, "KEYWORD"@) ==> tokenize(g, w, line) == seq![
            tok(w, TokenType::Operator, line),
        ],
        w.len() == 2 && operator(g, w[0]) && !letter_or_digit(g, w[0]) && !separator(g, w[0])
            && operator(g, w[1]) && !letter_or_digit(g, w[1]) && !separator(g, w[1])
            && operator_text(g, w) && !is_of_kind(g, w, "KEYWORD"@) ==> tokenize(g, w, line)
            == seq![tok(w, TokenType::Operator, line)],
{
    if w.len() > 0 && (forall|j: int| 0 <= j < w.len() ==> letter_or_digit(g, #[trigger] w[j])) {
        lemma_scan_word_chars(g, w, line);
    }
    if w.len() == 1 {
        assert(w.drop_last() =~= Seq::<char>::empty());
        assert(w.last() == w[0]);
        assert(seq![w[0]] =~= w);
        let st0 = scan_run(g, w.drop_last(), line);
        assert(st0.out =~= Seq::<TokenView>::empty() && st0.built =~= Seq::<char>::empty() && !st0.check_next);
        assert(flush(g, st0, line) =~= Seq::<TokenView>::empty());
        assert(scan_run(g, w, line) == scan_step(g, st0, w[0], line));
        let sep = tok(seq![w[0]], TokenType::Separator, line);
        assert(Seq::<TokenView>::empty().push(sep) =~= seq![sep]);
        let op = tok(seq![w[0]], TokenType::Operator, line);
        assert(Seq::<TokenView>::empty().push(op) =~= seq![op]);
        let st1 = scan_run(g, w, line);
        assert(flush(g, ScanState { out: seq![sep], built: seq![], check_next: false }, line) =~= seq![sep]);
    }
    if w.len() == 2 && operator(g, w[0]) && !letter_or_digit(g, w[0]) && !separator(g, w[0])
        && operator(g, w[1]) && !letter_or_digit(g, w[1]) && !separator(g, w[1]) && operator_text(
        g,
        w,
    ) {
        let w1 = w.drop_last();
        assert(w1.drop_last() =~= Seq::<char>::empty());
        assert(w1.last() == w[0]);
        assert(w.last() == w[1]);
        assert(seq![w[0]] =~= w1);
        assert(w1.push(w[1]) =~= w);
        let st0 = scan_run(g, w1.drop_last(), line);
        assert(st0.out =~= Seq::<TokenView>::empty() && st0.built =~= Seq::<char>::empty() && !st0.check_next);
        assert(flush(g, st0, line) =~= Seq::<TokenView>::empty());
        assert(scan_run(g, w1, line) == scan_step(g, st0, w[0], line));
        let st1 = scan_run(g, w1, line);
        assert(st1.built =~= w1 && st1.check_next && st1.out =~= Seq::<TokenView>::empty());
        assert(st1.built.push(w[1]) =~= w);
        assert(scan_run(g, w, line) == scan_step(g, st1, w[1], line));
        let st2 = scan_run(g, w, line);
        assert(st2.built =~= w && st2.check_next);
        let op = tok(w, TokenType::Operator, line);
        assert(st2.out.push(op) =~= seq![op]);
    }
}

} // verus!
