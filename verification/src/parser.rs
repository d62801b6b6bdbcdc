//! The Jay parser: a recursive descent over the tokens of a program that
//! checks its syntax, keeps its symbol table, and runs its assignments and
//! `if` statements as it reads them. Each rule's effect is the transition
//! that `parse_spec` states for it.
use vstd::prelude::*;

use crate::evaluator::{eval_text, h_free, lemma_h_free_names_no_shift, EvalOutcome};
use crate::lexer::{token_views, Token, TokenView};
use crate::parse_spec::{
    at_identifier, at_literal, at_most, attach, below, bool_text, clear_expr, debug_listing,
    drop_top, eval_input, expect, if_measure, initial_state, integer_text, is_letter, is_number,
    lemma_execute_if_body, lemma_substitute_stop, fits, panics, identifier_panics, Substitution, lemma_take, listing,
    main_body_text, print_table, record, safe_text, skip_top, sp_assignment, sp_block,
    sp_condition, sp_declaration, sp_declarations, sp_eval, sp_execute_else_body,
    sp_execute_if_body, sp_identifiers, sp_if_statement, sp_level, sp_program, sp_run,
    sp_more, sp_run_assignment, sp_statement, sp_statements, sp_while_statement, substitute,
    substitute_piece, lemma_substitute_h_free, lemma_value_text_h_free, plain_piece, table_rows, table_text, take, top_is, value_text_of, identifier_text, wf,
    with_line, FailureKindView, FailureView, Outcome, PState,
};
use crate::string_table::{is_of_kind, lemma_pairs_insert_values, StringTable};
use crate::table_view::{record_views, render_rounded_table};
use crate::text::{
    chars_of, debug_string, decimal_text, lemma_spaced_pieces, push_char, space_pieces,
    split_spaces, string_of, trim, trim_chars, vec_views, views_of,
};

verus! {

/// Why an analysis stopped.
#[derive(Debug)]
pub enum FailureKind {
    /// A syntax error.
    Syntax,
    /// An expression names a variable that is not declared or has no value.
    UnassignedVariable,
    /// A variable is declared twice.
    AlreadyDeclared(String),
    /// A variable is assigned without being declared.
    UndeclaredVariable(String),
    /// An assignment's expression has a value that is neither an integer nor a boolean.
    InvalidValue,
    /// The evaluator could not evaluate this expression text.
    InvalidExpression(String),
    /// A condition is not a boolean.
    ExpectedBoolean,
}

impl View for FailureKind {
    type V = FailureKindView;

    open spec fn view(&self) -> FailureKindView {
        match self {
            FailureKind::Syntax => FailureKindView::Syntax,
            FailureKind::UnassignedVariable => FailureKindView::UnassignedVariable,
            FailureKind::AlreadyDeclared(n) => FailureKindView::AlreadyDeclared(n@),
            FailureKind::UndeclaredVariable(n) => FailureKindView::UndeclaredVariable(n@),
            FailureKind::InvalidValue => FailureKindView::InvalidValue,
            FailureKind::InvalidExpression(t) => FailureKindView::InvalidExpression(t@),
            FailureKind::ExpectedBoolean => FailureKindView::ExpectedBoolean,
        }
    }
}

/// The failure that stops an analysis, with the line the parser had reached.
#[derive(Debug)]
pub struct ParseFailure {
    pub line: u32,
    pub kind: FailureKind,
}

impl View for ParseFailure {
    type V = FailureView;

    open spec fn view(&self) -> FailureView {
        FailureView { line: self.line, kind: self.kind@ }
    }
}

/// The outcome of a rule, taken by its view.
pub open spec fn outcome_of(r: Result<bool, ParseFailure>) -> Outcome {
    match r {
        Ok(b) => Ok(b),
        Err(e) => Err(e@),
    }
}

/// The outcome of a run, taken by its view (success is `Ok(true)`).
pub open spec fn unit_outcome(r: Result<(), ParseFailure>) -> Outcome {
    match r {
        Ok(_) => Ok(true),
        Err(e) => Err(e@),
    }
}

/// The state of the `if` statement being run.
#[derive(Debug)]
pub struct IfStatement {
    pub exp: bool,
    pub body: Vec<Token>,
    pub is_active: bool,
    pub else_body: Vec<Token>,
    pub else_is_active: bool,
}

impl IfStatement {
    /// No `if` being run.
    pub fn build() -> (r: IfStatement)
        ensures
            !r.exp,
            r.body@.len() == 0,
            !r.is_active,
            r.else_body@.len() == 0,
            !r.else_is_active,
    {
        IfStatement {
            exp: false,
            body: Vec::new(),
            is_active: false,
            else_body: Vec::new(),
            else_is_active: false,
        }
    }
}

/// The parser over the tokens of a program.
pub struct Parser {
    pub grammar_tokens: StringTable,
    pub file_tokens: Vec<Token>,
    pub line_control: u32,
    pub symbol_table: StringTable,
    pub declaration_flag: bool,
    pub current_expresion: String,
    pub if_statement: IfStatement,
    /// What the analysis has written to standard output.
    pub output: String,
    /// The token values that `current_expresion` is made of.
    pub expression_terms: Ghost<Seq<Seq<char>>>,
}

impl View for Parser {
    type V = PState;

    open spec fn view(&self) -> PState {
        PState {
            grammar: self.grammar_tokens@,
            tokens: token_views(self.file_tokens@),
            line: self.line_control,
            symbols: self.symbol_table.pairs(),
            declaring: self.declaration_flag,
            expression: self.current_expresion@,
            terms: self.expression_terms@,
            cond: self.if_statement.exp,
            body: token_views(self.if_statement.body@),
            active: self.if_statement.is_active,
            else_body: token_views(self.if_statement.else_body@),
            else_active: self.if_statement.else_is_active,
            output: self.output@,
        }
    }
}

/// What a rule of the expression family ensures of level `k`.
pub open spec fn expr_post(old: PState, new: PState, r: Outcome, k: nat) -> bool {
    &&& wf(old) ==> wf(new)
    &&& fits(old) ==> fits(new)
    &&& (new, r) == sp_level(k, old)
    &&& new.grammar == old.grammar
    &&& new.active == old.active
    &&& new.else_active == old.else_active
    &&& new.cond == old.cond
    &&& if_measure(new) <= if_measure(old)
    &&& new.tokens.len() <= old.tokens.len()
    &&& r == Ok::<bool, FailureView>(false) ==> new == old
    &&& r == Ok::<bool, FailureView>(true) ==> new.tokens.len() < old.tokens.len() && new.terms.len() > 0
}

/// What holds while a level `k` of the expression rules reads its
/// operators, from the state `s0` it started in to the state `cur` it has
/// reached: the invariants kept, and what is left of the level's reading
/// from `s0` is the rest read from `cur`.
pub open spec fn more_inv(s0: PState, cur: PState, k: nat) -> bool {
    &&& wf(s0) ==> wf(cur)
    &&& fits(s0) ==> fits(cur)
    &&& fits(s0) || !panics(sp_level(k, s0).1)
    &&& sp_level(k, s0) == sp_more(k, cur)
    &&& cur.grammar == s0.grammar
    &&& cur.active == s0.active
    &&& cur.else_active == s0.else_active
    &&& cur.cond == s0.cond
    &&& if_measure(cur) <= if_measure(s0)
    &&& cur.tokens.len() < s0.tokens.len()
    &&& cur.terms.len() > 0
}

/// The outcome of an evaluation, taken by its view.
pub open spec fn eval_view(r: Result<EvalOutcome, ParseFailure>) -> Result<EvalOutcome, FailureView> {
    match r {
        Ok(o) => Ok(o),
        Err(e) => Err(e@),
    }
}

/// What a sequence of rules of the statement family ensures: the invariant
/// kept, no more left to do when it succeeds, and the `if` state either
/// untouched (inside a branch being read) or reset.
pub open spec fn run_post(old: PState, new: PState, r: Outcome) -> bool {
    &&& wf(old) ==> wf(new)
    &&& fits(old) ==> fits(new)
    &&& new.grammar == old.grammar
    &&& r is Ok ==> at_most(new, old)
    &&& r is Ok && old.active ==> new.active && new.else_active == old.else_active && new.cond
        == old.cond
    &&& r is Ok && !old.active && !old.else_active ==> !new.active && !new.else_active
}

/// What a rule of the statement family ensures: a rule that does not
/// match leaves the state as it was, one that matches has less left to do.
pub open spec fn stmt_post(old: PState, new: PState, r: Outcome) -> bool {
    &&& run_post(old, new, r)
    &&& r == Ok::<bool, FailureView>(false) ==> new == old
    &&& r == Ok::<bool, FailureView>(true) ==> below(new, old)
}

/// The views of the tokens of `v`, copied.
fn clone_tokens(v: &Vec<Token>) -> (r: Vec<Token>)
    ensures
        token_views(r@) == token_views(v@),
{
    let mut out: Vec<Token> = Vec::new();
    let mut i: usize = 0;
    while i < v.len()
        invariant
            i <= v.len(),
            token_views(out@) == token_views(v@).take(i as int),
        decreases v.len() - i,
    {
        let c = v[i].clone();
        assert(c@ == token_views(v@)[i as int]);
        let ghost prev = token_views(out@);
        out.push(c);
        assert(token_views(out@) =~= prev.push(token_views(v@)[i as int]));
        assert(token_views(v@).take(i + 1) =~= token_views(v@).take(i as int).push(
            token_views(v@)[i as int],
        ));
        i += 1;
    }
    assert(token_views(v@).take(v.len() as int) =~= token_views(v@));
    out
}

/// The text that an evaluated value is stored as: an integer in decimal, a
/// boolean as `true` or `false`; `None` for any other outcome.
pub fn value_text(outcome: EvalOutcome) -> (r: Option<String>)
    ensures
        r is Some <==> value_text_of(outcome) is Some,
        r matches Some(t) ==> t@ == value_text_of(outcome)->0,
{
    match outcome {
        EvalOutcome::Int(v) => Some(decimal_text(v)),
        EvalOutcome::Boolean(b) => Some(bool_string(b)),
        _ => None,
    }
}

/// What the parser makes of the evaluator's outcome on the text `text`:
/// the outcome itself, unless the evaluator failed, which is an invalid
/// expression naming the text.
pub fn accept_outcome(outcome: EvalOutcome, text: String) -> (r: Result<EvalOutcome, FailureKind>)
    ensures
        outcome == EvalOutcome::Failed ==> (r matches Err(k) && k@ == FailureKindView::InvalidExpression(text@)),
        outcome != EvalOutcome::Failed ==> r == Ok::<EvalOutcome, FailureKind>(outcome),
{
    match outcome {
        EvalOutcome::Failed => Err(FailureKind::InvalidExpression(text)),
        _ => Ok(outcome),
    }
}

/// The value of a condition: `Some` of the boolean the evaluator gave,
/// `None` for any other outcome (a condition that is not a boolean).
pub fn condition_value(outcome: EvalOutcome) -> (r: Option<bool>)
    ensures
        r == (match outcome {
            EvalOutcome::Boolean(b) => Some(b),
            _ => None::<bool>,
        }),
{
    match outcome {
        EvalOutcome::Boolean(b) => Some(b),
        _ => None,
    }
}

/// `true` or `false`.
pub fn bool_string(b: bool) -> (r: String)
    ensures
        r@ == bool_text(b),
{
    if b {
        String::from_str("true")
    } else {
        String::from_str("false")
    }
}

impl Parser {
    /// A parser over copies of the grammar and of the tokens of a program,
    /// at line 1, with an empty symbol table, no expression under way, no
    /// `if` being run, and nothing written.
    pub fn build(grammar_tokens: &StringTable, file_tokens: &Vec<Token>) -> (r: Parser)
        ensures
            r@ == initial_state(grammar_tokens@, token_views(file_tokens@)),
    {
        let gram = grammar_tokens.clone();
        let fil_tokens = clone_tokens(file_tokens);
        let new_symbol_table = StringTable::new();
        let r = Parser {
            grammar_tokens: gram,
            file_tokens: fil_tokens,
            line_control: 1,
            symbol_table: new_symbol_table,
            declaration_flag: false,
            current_expresion: String::new(),
            if_statement: IfStatement::build(),
            output: String::new(),
            expression_terms: Ghost(Seq::empty()),
        };
        assert(token_views(r.if_statement.body@) =~= Seq::<TokenView>::empty());
        assert(token_views(r.if_statement.else_body@) =~= Seq::<TokenView>::empty());
        r
    }

    fn compare_to_top(&self, token: &str) -> (r: bool)
        ensures
            r == top_is(self@, token@),
    {
        if self.file_tokens.len() > 0 {
            let expected = String::from_str(token);
            self.file_tokens[0].value == expected
        } else {
            false
        }
    }

    fn update_line(&mut self)
        ensures
            final(self)@ == with_line(old(self)@),
    {
        if self.file_tokens.len() > 0 {
            self.line_control = self.file_tokens[0].get_line();
        }
    }

    fn consume(&mut self) -> (r: Token)
        requires
            old(self).file_tokens.len() > 0,
        ensures
            r@ == old(self)@.tokens[0],
            final(self)@ == drop_top(old(self)@),
    {
        let t = self.file_tokens.remove(0);
        assert(token_views(self.file_tokens@) =~= token_views(old(self).file_tokens@).drop_first());
        t
    }

    fn record(&mut self, item: &Token)
        ensures
            final(self)@ == record(old(self)@, item@),
    {
        if self.if_statement.is_active && !self.if_statement.else_is_active {
            self.if_statement.body.push(item.clone());
            assert(token_views(self.if_statement.body@) =~= token_views(
                old(self).if_statement.body@,
            ).push(item@));
        }
        if self.if_statement.else_is_active && !self.if_statement.exp {
            self.if_statement.else_body.push(item.clone());
            assert(token_views(self.if_statement.else_body@) =~= token_views(
                old(self).if_statement.else_body@,
            ).push(item@));
        }
    }

    fn take_token(&mut self) -> (r: Token)
        requires
            old(self).file_tokens.len() > 0,
        ensures
            r@ == old(self)@.tokens[0],
            final(self)@ == take(old(self)@),
    {
        self.update_line();
        let item = self.consume();
        self.record(&item);
        item
    }

    fn end_process(&self) -> (r: ParseFailure)
        ensures
            r@ == (FailureView { line: self.line_control, kind: FailureKindView::Syntax }),
    {
        ParseFailure { line: self.line_control, kind: FailureKind::Syntax }
    }

    fn attach_to_expression(&mut self)
        requires
            old(self).file_tokens.len() > 0,
        ensures
            final(self)@ == attach(old(self)@),
    {
        let item = self.consume();
        self.record(&item);
        let v = item.get_value();
        self.current_expresion.append(v.as_str());
        push_char(&mut self.current_expresion, ' ');
        self.expression_terms = Ghost(self.expression_terms@.push(item@.value));
        assert(self.current_expresion@ =~= old(self).current_expresion@ + item@.value + seq![' ']);
    }

    fn clear_expression(&mut self)
        ensures
            final(self)@ == clear_expr(old(self)@),
    {
        self.current_expresion = String::new();
        self.expression_terms = Ghost(Seq::empty());
    }

    fn is_of_type(&self, element: &String, type_of: &str) -> (r: bool)
        ensures
            r == is_of_kind(self.grammar_tokens@, element@, type_of@),
    {
        self.grammar_tokens.is_of_type(element, type_of)
    }

    fn letter_or_number_from(&self, chars: &Vec<char>, from: usize) -> (r: bool)
        requires
            from <= chars.len(),
        ensures
            r == forall|j: int|
                from <= j < chars@.len() ==> is_letter(self.grammar_tokens@, chars@[j])
                    || is_number(self.grammar_tokens@, chars@[j]),
    {
        let mut j = from;
        while j < chars.len()
            invariant
                from <= j <= chars.len(),
                forall|t: int|
                    from <= t < j ==> is_letter(self.grammar_tokens@, chars@[t]) || is_number(
                        self.grammar_tokens@,
                        chars@[t],
                    ),
            decreases chars.len() - j,
        {
            if self.grammar_tokens.char_is_of_type(chars[j], "LETTER") {
            } else if self.grammar_tokens.char_is_of_type(chars[j], "NUMBER") {
            } else {
                return false;
            }
            j += 1;
        }
        true
    }

    /// Whether the next token is an identifier: no keyword, a letter, then
    /// letters and digits.
    fn identifier(&mut self) -> (r: bool)
        requires
            !identifier_panics(old(self)@),
        ensures
            r == at_identifier(old(self)@),
            final(self)@ == old(self)@,
    {
        if self.file_tokens.len() > 0 {
            let value = self.file_tokens[0].get_value();
            if self.is_of_type(&value, "KEYWORD") {
                return false;
            }
            let chars = chars_of(value.as_str());
            let first_char = chars[0];
            if self.grammar_tokens.char_is_of_type(first_char, "LETTER") {
                return self.letter_or_number_from(&chars, 1);
            }
        }
        false
    }

    /// Whether a piece of an expression's text names a variable: no keyword,
    /// a letter, then letters and digits.
    fn is_identifier(&self, identifier: &String) -> (r: bool)
        requires
            safe_text(self@.grammar, identifier@),
        ensures
            r == identifier_text(self@.grammar, identifier@),
    {
        if self.is_of_type(identifier, "KEYWORD") {
            return false;
        }
        let chars = chars_of(identifier.as_str());
        let first_char = chars[0];
        if self.grammar_tokens.char_is_of_type(first_char, "LETTER") {
            return self.letter_or_number_from(&chars, 1);
        }
        false
    }

    /// Whether the next token is `true` or `false`.
    pub fn boolean(&mut self) -> (r: bool)
        ensures
            r == (top_is(old(self)@, "true"@) || top_is(old(self)@, "false"@)),
            final(self)@ == old(self)@,
    {
        self.compare_to_top("true") || self.compare_to_top("false")
    }

    /// Whether the next token is made of digits.
    pub fn integer(&mut self) -> (r: bool)
        ensures
            r == (old(self)@.tokens.len() > 0 && integer_text(
                old(self)@.grammar,
                old(self)@.tokens[0].value,
            )),
            final(self)@ == old(self)@,
    {
        if self.file_tokens.len() > 0 {
            let value = self.file_tokens[0].get_value();
            let chars = chars_of(value.as_str());
            let mut j: usize = 0;
            while j < chars.len()
                invariant
                    j <= chars.len(),
                    chars@ == self@.tokens[0].value,
                    forall|t: int| 0 <= t < j ==> is_number(self.grammar_tokens@, chars@[t]),
                decreases chars.len() - j,
            {
                if self.grammar_tokens.char_is_of_type(chars[j], "NUMBER") {
                    j += 1;
                    continue ;
                }
                return false;
            }
            return true;
        }
        false
    }

    /// Whether the next token is a literal: a boolean or an integer.
    pub fn literal(&mut self) -> (r: bool)
        ensures
            r == at_literal(old(self)@),
            final(self)@ == old(self)@,
    {
        if self.boolean() {
            return true
        } else if self.integer() {
            return true
        }
        false
    }

    /// Evaluates the current expression: each piece of its text that names
    /// a variable replaced by the variable's value, the result handed to the
    /// evaluator, the expression emptied.
    fn eval_expression(&mut self) -> (r: Result<EvalOutcome, ParseFailure>)
        requires
            fits(old(self)@) && old(self)@.terms.len() > 0 || !panics(sp_eval(old(self)@).1),
        ensures
            wf(old(self)@) ==> wf(final(self)@),
            fits(old(self)@) ==> fits(final(self)@),
            (final(self)@, eval_view(r)) == sp_eval(old(self)@),
    {
        let ghost s = self@;
        let current = chars_of(self.current_expresion.as_str());
        let trimmed = trim_chars(&current);
        let pieces = split_spaces(&trimmed);
        let ghost ps = vec_views(pieces@);
        proof {
            if fits(s) && s.terms.len() > 0 {
                lemma_spaced_pieces(s.terms);
            }
        }
        let mut temporal_expression = String::new();
        let mut i: usize = 0;
        assert(ps.take(0) =~= Seq::<Seq<char>>::empty());
        assert(temporal_expression@ =~= Seq::<char>::empty());
        while i < pieces.len()
            invariant
                i <= pieces.len(),
                self@ == s,
                fits(s) && s.terms.len() > 0 || !panics(sp_eval(s).1),
                ps == vec_views(pieces@),
                fits(s) && s.terms.len() > 0 ==> ps == s.terms,
                space_pieces(trim(s.expression)) == ps,
                substitute(s, ps.take(i as int)) == Substitution::Text(temporal_expression@),
            decreases pieces.len() - i,
        {
            let factor = string_of(&pieces[i]);
            assert(factor@ == ps[i as int]);
            assert(ps.take(i + 1).drop_last() =~= ps.take(i as int));
            assert(ps.take(i + 1).last() == ps[i as int]);
            proof {
                if !safe_text(s.grammar, ps[i as int]) {
                    if !(fits(s) && s.terms.len() > 0) {
                        assert(substitute(s, ps.take(i + 1)) == Substitution::Panic);
                        lemma_substitute_stop(s, ps, i + 1);
                    }
                }
            }
            if self.is_identifier(&factor) {
                match self.symbol_table.get(&factor) {
                    Some(value) => {
                        if !value.as_str().is_empty() {
                            temporal_expression.append(value.as_str());
                            assert(substitute_piece(s, ps[i as int]) == Substitution::Text(value@));
                            i += 1;
                            continue ;
                        }
                        assert(substitute_piece(s, ps[i as int]) == Substitution::Unassigned);
                    },
                    None => {
                        assert(substitute_piece(s, ps[i as int]) == Substitution::Unassigned);
                    },
                }
                proof {
                    assert(substitute(s, ps.take(i + 1)) == Substitution::Unassigned);
                    lemma_substitute_stop(s, ps, i + 1);
                    assert(eval_input(s) == Substitution::Unassigned);
                    assert(sp_eval(s).0 == s);
                    assert(sp_eval(s).1 == Err::<EvalOutcome, FailureView>(
                        FailureView { line: s.line, kind: FailureKindView::UnassignedVariable },
                    ));
                }
                return Err(
                    ParseFailure { line: self.line_control, kind: FailureKind::UnassignedVariable },
                );
            }
            temporal_expression.append(factor.as_str());
            i += 1;
        }
        assert(ps.take(pieces.len() as int) =~= ps);
        assert(eval_input(s) == Substitution::Text(temporal_expression@));
        proof {
            if fits(s) && s.terms.len() > 0 {
                assert forall|k: int| 0 <= k < ps.len() implies plain_piece(
                    s.grammar,
                    #[trigger] ps[k],
                ) by {
                    assert(ps[k] == s.terms[k]);
                }
                lemma_substitute_h_free(s, ps);
                lemma_h_free_names_no_shift(temporal_expression@);
            }
        }
        let outcome = eval_text(&temporal_expression);
        match accept_outcome(outcome, temporal_expression) {
            Err(kind) => Err(ParseFailure { line: self.line_control, kind }),
            Ok(o) => {
                self.clear_expression();
                Ok(o)
            },
        }
    }

    /// Writes the symbol table to the output: every variable that has a
    /// value, with its value, drawn as a table.
    fn print_table(&mut self)
        ensures
            final(self)@ == print_table(old(self)@),
    {
        let mut cols: Vec<String> = Vec::new();
        cols.push(String::from_str("Variable"));
        cols.push(String::from_str("Valor"));
        assert(views_of(cols@) =~= seq!["Variable"@, "Valor"@]);
        let mut records: Vec<Vec<String>> = Vec::new();
        let ghost syms = self.symbol_table.pairs();
        let n = self.symbol_table.len();
        let mut i: usize = 0;
        assert(syms.take(0) =~= Seq::<(Seq<char>, Seq<char>)>::empty());
        assert(record_views(records@) =~= Seq::<Seq<Seq<char>>>::empty());
        while i < n
            invariant
                i <= n == syms.len(),
                syms == self.symbol_table.pairs(),
                record_views(records@) == table_rows(syms.take(i as int)),
            decreases n - i,
        {
            let (key, value) = self.symbol_table.entry_at(i);
            assert(syms.take(i + 1).drop_last() =~= syms.take(i as int));
            assert(syms.take(i + 1).last() == syms[i as int]);
            if !value.as_str().is_empty() {
                let mut v: Vec<String> = Vec::new();
                v.push(key.clone());
                v.push(value.clone());
                let ghost before = record_views(records@);
                records.push(v);
                assert(views_of(v@) =~= seq![syms[i as int].0, syms[i as int].1]);
                assert(record_views(records@) =~= before.push(views_of(v@)));
            }
            i += 1;
        }
        assert(syms.take(n as int) =~= syms);
        let table = render_rounded_table(&cols, &records);
        push_char(&mut self.output, '\n');
        self.output.append(table.as_str());
        push_char(&mut self.output, '\n');
        assert(self.output@ =~= old(self).output@ + table_text(syms));
    }

    /// Runs an assignment to `assign_to`: the expression evaluated and its
    /// value stored, the symbol table written.
    fn run_assigment(&mut self, assign_to: String) -> (r: Result<(), ParseFailure>)
        requires
            fits(old(self)@) && old(self)@.terms.len() > 0 || !panics(
                sp_run_assignment(old(self)@, assign_to@).1,
            ),
        ensures
            wf(old(self)@) ==> wf(final(self)@),
            fits(old(self)@) ==> fits(final(self)@),
            (final(self)@, unit_outcome(r)) == sp_run_assignment(old(self)@, assign_to@),
    {
        match self.symbol_table.get(&assign_to) {
            None => {
                return Err(
                    ParseFailure {
                        line: self.line_control,
                        kind: FailureKind::UndeclaredVariable(assign_to),
                    },
                );
            },
            Some(_) => {},
        }
        match self.eval_expression() {
            Ok(result) => {
                match value_text(result) {
                    Some(text) => {
                        let ghost syms = self.symbol_table.pairs();
                        let ghost tv = text@;
                        let ghost kv = assign_to@;
                        self.symbol_table.insert(assign_to, text);
                        proof {
                            lemma_value_text_h_free(result);
                            if fits(old(self)@) {
                                lemma_pairs_insert_values(syms, kv, tv, |v: Seq<char>| h_free(v));
                            }
                        }
                        self.print_table();
                        Ok(())
                    },
                    None => Err(
                        ParseFailure { line: self.line_control, kind: FailureKind::InvalidValue },
                    ),
                }
            },
            Err(error) => Err(error),
        }
    }

    /// `<Assignment> ::= <Identifier> = <Expression> ;`: checked, and run
    /// unless a branch of an `if` is being read.
    pub fn assignment(&mut self) -> (r: Result<bool, ParseFailure>)
        requires
            fits(old(self)@) || !panics(sp_assignment(old(self)@).1),
        ensures
            stmt_post(old(self)@, final(self)@, outcome_of(r)),
            (final(self)@, outcome_of(r)) == sp_assignment(old(self)@),
    {
        let assign_to;
        if self.identifier() {
            proof {
                lemma_take(self@);
            }
            assign_to = self.take_token();
        } else {
            return Ok(false);
        }
        if self.compare_to_top("=") {
            proof {
                lemma_take(self@);
            }
            self.take_token();
        } else {
            return Err(self.end_process());
        }
        match self.expression() {
            Err(e) => {
                return Err(e);
            },
            Ok(b) => {
                if b && self.compare_to_top(";") {
                    if self.if_statement.is_active || self.if_statement.else_is_active {
                        self.clear_expression();
                    } else {
                        match self.run_assigment(assign_to.get_value()) {
                            Err(e) => {
                                return Err(e);
                            },
                            Ok(_) => {},
                        }
                    }
                    proof {
                        lemma_take(self@);
                    }
                    self.take_token();
                    return Ok(true);
                }
                return Err(self.end_process());
            },
        }
    }

    fn print_main_body(&mut self)
        ensures
            final(self)@ == (PState { output: old(self)@.output + main_body_text(old(self)@), ..old(self)@ }),
    {
        let ghost s = self@;
        self.output.append("\nmain body\n");
        let ghost base = self.output@;
        let mut i: usize = 0;
        assert(s.tokens.take(0) =~= Seq::<TokenView>::empty());
        assert(base + listing(s.tokens.take(0)) =~= base);
        while i < self.file_tokens.len()
            invariant
                i <= self.file_tokens.len(),
                s.tokens == token_views(self.file_tokens@),
                self.output@ == base + listing(s.tokens.take(i as int)),
                self.file_tokens == old(self).file_tokens,
                self.line_control == old(self).line_control,
                self.grammar_tokens == old(self).grammar_tokens,
                self.symbol_table == old(self).symbol_table,
                self.declaration_flag == old(self).declaration_flag,
                self.current_expresion == old(self).current_expresion,
                self.if_statement == old(self).if_statement,
                self.expression_terms == old(self).expression_terms,
            decreases self.file_tokens.len() - i,
        {
            assert(s.tokens.take(i + 1).drop_last() =~= s.tokens.take(i as int));
            assert(s.tokens.take(i + 1).last() == s.tokens[i as int]);
            let v = self.file_tokens[i].get_value();
            self.output.append(v.as_str());
            push_char(&mut self.output, ' ');
            i += 1;
            assert(self.output@ =~= base + listing(s.tokens.take(i as int)));
        }
        assert(s.tokens.take(self.file_tokens.len() as int) =~= s.tokens);
        self.output.append("if: ");
        let b = bool_string(self.if_statement.exp);
        self.output.append(b.as_str());
        push_char(&mut self.output, '\n');
        assert(self.output@ =~= s.output + main_body_text(s));
    }

    /// `{ <Statement> }*`: statements read until one does not match (the
    /// outcome is never a match).
    fn statements(&mut self) -> (r: Result<bool, ParseFailure>)
        requires
            wf(old(self)@),
            fits(old(self)@) || !panics(sp_statements(old(self)@).1),
        ensures
            run_post(old(self)@, final(self)@, outcome_of(r)),
            (final(self)@, outcome_of(r)) == sp_statements(old(self)@),
            r matches Ok(b) ==> !b,
        decreases if_measure(old(self)@), old(self)@.tokens.len(), 2nat,
    {
        match self.statement() {
            Err(e) => Err(e),
            Ok(b) => {
                if b {
                    return self.statements();
                }
                Ok(false)
            },
        }
    }

    /// `<Statement> ::= <Block> | <Assignment> | <IfStatement> | <WhileStatement>`.
    fn statement(&mut self) -> (r: Result<bool, ParseFailure>)
        requires
            wf(old(self)@),
            fits(old(self)@) || !panics(sp_statement(old(self)@).1),
        ensures
            stmt_post(old(self)@, final(self)@, outcome_of(r)),
            (final(self)@, outcome_of(r)) == sp_statement(old(self)@),
        decreases if_measure(old(self)@), old(self)@.tokens.len(), 1nat,
    {
        match self.block() {
            Err(e) => {
                return Err(e);
            },
            Ok(b) => {
                if b {
                    return Ok(true);
                }
            },
        }
        match self.assignment() {
            Err(e) => {
                return Err(e);
            },
            Ok(b) => {
                if b {
                    return Ok(true);
                }
            },
        }
        match self.if_statement() {
            Err(e) => {
                return Err(e);
            },
            Ok(b) => {
                if b {
                    return Ok(true);
                }
            },
        }
        self.while_statement()
    }

    /// `<Block> ::= { <Statements> }`.
    fn block(&mut self) -> (r: Result<bool, ParseFailure>)
        requires
            wf(old(self)@),
            fits(old(self)@) || !panics(sp_block(old(self)@).1),
        ensures
            stmt_post(old(self)@, final(self)@, outcome_of(r)),
            (final(self)@, outcome_of(r)) == sp_block(old(self)@),
        decreases if_measure(old(self)@), old(self)@.tokens.len(), 0nat,
    {
        if self.compare_to_top("{") {
            proof {
                lemma_take(self@);
            }
            self.take_token();
        } else {
            return Ok(false);
        }
        match self.statements() {
            Err(e) => Err(e),
            Ok(b) => {
                if b || self.compare_to_top("}") {
                    proof {
                        lemma_take(self@);
                    }
                    self.take_token();
                    return Ok(true);
                }
                Err(self.end_process())
            },
        }
    }

    /// `( <Expression> )` after `if` or `while`.
    fn condition(&mut self) -> (r: Result<bool, ParseFailure>)
        requires
            wf(old(self)@),
            fits(old(self)@) || !panics(sp_condition(old(self)@).1),
        ensures
            wf(final(self)@),
            fits(old(self)@) ==> fits(final(self)@),
            (final(self)@, outcome_of(r)) == sp_condition(old(self)@),
            final(self)@.grammar == old(self)@.grammar,
            final(self)@.active == old(self)@.active,
            final(self)@.else_active == old(self)@.else_active,
            final(self)@.cond == old(self)@.cond,
            r is Ok ==> at_most(final(self)@, old(self)@) && final(self)@.terms.len() > 0,
    {
        if self.compare_to_top("(") {
            proof {
                lemma_take(self@);
            }
            self.take_token();
        } else {
            return Err(self.end_process());
        }
        match self.expression() {
            Err(e) => Err(e),
            Ok(b) => {
                if b && self.compare_to_top(")") {
                    proof {
                        lemma_take(self@);
                    }
                    self.take_token();
                    return Ok(true);
                }
                Err(self.end_process())
            },
        }
    }

    /// `<IfStatement> ::= if ( <Expression> ) <Statement> [ else <Statement> ]`.
    /// At the top, the condition is evaluated, the branches are read with
    /// their tokens kept, and the tokens of the branch the condition selects
    /// are put back to be read and run; inside a branch being read, only
    /// `if ( <Expression> )` is read.
    #[verifier::spinoff_prover]
    #[verifier::rlimit(60)]
    pub fn if_statement(&mut self) -> (r: Result<bool, ParseFailure>)
        requires
            wf(old(self)@),
            fits(old(self)@) || !panics(sp_if_statement(old(self)@).1),
        ensures
            stmt_post(old(self)@, final(self)@, outcome_of(r)),
            (final(self)@, outcome_of(r)) == sp_if_statement(old(self)@),
        decreases if_measure(old(self)@), old(self)@.tokens.len(), 0nat,
    {
        let ghost s = self@;
        if self.compare_to_top("if") {
            proof {
                lemma_take(self@);
            }
            self.take_token();
        } else {
            return Ok(false);
        }
        match self.condition() {
            Err(e) => {
                return Err(e);
            },
            Ok(_) => {},
        }
        if !self.if_statement.is_active {
            match self.eval_expression() {
                Ok(outcome) => match condition_value(outcome) {
                    Some(exp_result) => {
                        self.if_statement.exp = exp_result;
                    },
                    None => {
                        return Err(
                            ParseFailure {
                                line: self.line_control,
                                kind: FailureKind::ExpectedBoolean,
                            },
                        );
                    },
                },
                Err(error) => {
                    return Err(error);
                },
            }
        } else {
            self.clear_expression();
        }
        if !self.if_statement.is_active {
            self.print_main_body();
            self.if_statement.is_active = true;
            let ghost s6 = self@;
            assert(below(s6, s));
            match self.statement() {
                Err(e) => {
                    return Err(e);
                },
                Ok(b) => {
                    if b {
                        if self.compare_to_top("else") {
                            if !self.if_statement.else_is_active {
                                self.if_statement.else_is_active = true;
                                proof {
                                    lemma_take(self@);
                                }
                                self.update_line();
                                self.consume();
                                match self.statement() {
                                    Err(e) => {
                                        return Err(e);
                                    },
                                    Ok(_) => {},
                                }
                            } else {
                                return Ok(true);
                            }
                        }
                        proof {
                            lemma_execute_if_body(self@);
                        }
                        self.execute_if_body();
                        return Ok(true);
                    }
                },
            }
        } else {
            return Ok(true);
        }
        Err(self.end_process())
    }

    /// `<WhileStatement> ::= while ( <Expression> ) <Statement>`: the
    /// condition is evaluated once and must be a boolean; the statement is
    /// read once.
    pub fn while_statement(&mut self) -> (r: Result<bool, ParseFailure>)
        requires
            wf(old(self)@),
            fits(old(self)@) || !panics(sp_while_statement(old(self)@).1),
        ensures
            stmt_post(old(self)@, final(self)@, outcome_of(r)),
            (final(self)@, outcome_of(r)) == sp_while_statement(old(self)@),
        decreases if_measure(old(self)@), old(self)@.tokens.len(), 0nat,
    {
        if self.compare_to_top("while") {
            proof {
                lemma_take(self@);
            }
            self.take_token();
        } else {
            return Ok(false);
        }
        match self.condition() {
            Err(e) => {
                return Err(e);
            },
            Ok(_) => {},
        }
        match self.eval_expression() {
            Ok(outcome) => {
                if condition_value(outcome).is_none() {
                    return Err(
                        ParseFailure { line: self.line_control, kind: FailureKind::ExpectedBoolean },
                    );
                }
            },
            Err(error) => {
                return Err(error);
            },
        }
        match self.statement() {
            Err(e) => Err(e),
            Ok(b) => {
                if b {
                    return Ok(true);
                }
                Err(self.end_process())
            },
        }
    }

    /// `<Type> ::= int | boolean`, read if it is next.
    fn declaration_type(&mut self) -> (r: bool)
        ensures
            r == (top_is(old(self)@, "int"@) || top_is(old(self)@, "boolean"@)),
            r ==> final(self)@ == skip_top(old(self)@),
            !r ==> final(self)@ == old(self)@,
            wf(old(self)@) ==> wf(final(self)@),
            fits(old(self)@) ==> fits(final(self)@),
    {
        if self.compare_to_top("int") || self.compare_to_top("boolean") {
            proof {
                lemma_take(self@);
            }
            self.update_line();
            self.consume();
            return true
        }
        false
    }

    /// `<Identifiers> ::= <Identifier> { , <Identifier> }*`, each identifier
    /// entered in the symbol table, with no value, while declaring.
    fn identifiers(&mut self) -> (r: Result<bool, ParseFailure>)
        requires
            fits(old(self)@) || !panics(sp_identifiers(old(self)@).1),
        ensures
            wf(old(self)@) ==> wf(final(self)@),
            fits(old(self)@) ==> fits(final(self)@),
            (final(self)@, outcome_of(r)) == sp_identifiers(old(self)@),
            final(self)@.grammar == old(self)@.grammar,
            final(self)@.tokens.len() <= old(self)@.tokens.len(),
        decreases old(self)@.tokens.len(),
    {
        if !self.identifier() {
            return Ok(false);
        }
        proof {
            lemma_take(self@);
        }
        self.update_line();
        if self.declaration_flag {
            let name = self.consume().get_value();
            match self.symbol_table.get(&name) {
                None => {
                    let ghost syms = self.symbol_table.pairs();
                    let ghost kv = name@;
                    self.symbol_table.insert(name, String::new());
                    proof {
                        if fits(old(self)@) {
                            assert(h_free(Seq::<char>::empty()));
                            lemma_pairs_insert_values(syms, kv, Seq::<char>::empty(), |v: Seq<char>| h_free(v));
                        }
                    }
                },
                Some(_) => {
                    return Err(
                        ParseFailure {
                            line: self.line_control,
                            kind: FailureKind::AlreadyDeclared(name),
                        },
                    );
                },
            }
        } else {
            self.consume();
        }
        if self.compare_to_top(",") {
            proof {
                lemma_take(self@);
            }
            self.update_line();
            self.consume();
            return self.identifiers();
        }
        self.declaration_flag = false;
        Ok(true)
    }

    /// `<Declaration> ::= <Type> <Identifiers> ;`.
    fn declaration(&mut self) -> (r: Result<bool, ParseFailure>)
        requires
            fits(old(self)@) || !panics(sp_declaration(old(self)@).1),
        ensures
            wf(old(self)@) ==> wf(final(self)@),
            fits(old(self)@) ==> fits(final(self)@),
            (final(self)@, outcome_of(r)) == sp_declaration(old(self)@),
            final(self)@.grammar == old(self)@.grammar,
            r == Ok::<bool, ParseFailure>(false) ==> final(self)@ == old(self)@,
            r == Ok::<bool, ParseFailure>(true) ==> final(self)@.tokens.len() < old(self)@.tokens.len(),
    {
        if !self.declaration_type() {
            return Ok(false);
        }
        self.declaration_flag = true;
        match self.identifiers() {
            Err(e) => {
                return Err(e);
            },
            Ok(b) => {
                if !b {
                    return Err(self.end_process());
                }
            },
        }
        if !self.compare_to_top(";") {
            return Err(self.end_process());
        }
        proof {
            lemma_take(self@);
        }
        self.update_line();
        self.consume();
        Ok(true)
    }

    /// `<Declarations> ::= { <Declaration> }*`.
    fn declarations(&mut self) -> (r: Result<bool, ParseFailure>)
        requires
            fits(old(self)@) || !panics(sp_declarations(old(self)@).1),
        ensures
            wf(old(self)@) ==> wf(final(self)@),
            fits(old(self)@) ==> fits(final(self)@),
            (final(self)@, outcome_of(r)) == sp_declarations(old(self)@),
            final(self)@.grammar == old(self)@.grammar,
        decreases old(self)@.tokens.len(),
    {
        match self.declaration() {
            Err(e) => Err(e),
            Ok(b) => {
                if b {
                    return self.declarations();
                }
                Ok(false)
            },
        }
    }

    fn expect_keyword(&mut self, keyword: &str) -> (r: Result<(), ParseFailure>)
        ensures
            wf(old(self)@) ==> wf(final(self)@),
            fits(old(self)@) ==> fits(final(self)@),
            (final(self)@, unit_outcome(r)) == expect(old(self)@, keyword@),
    {
        if !self.compare_to_top(keyword) {
            return Err(self.end_process());
        }
        proof {
            lemma_take(self@);
        }
        self.update_line();
        self.consume();
        Ok(())
    }

    /// `<Program> ::= void main ( ) { <Declarations> <Statements> }`, with
    /// nothing after it.
    fn program(&mut self) -> (r: Result<(), ParseFailure>)
        requires
            wf(old(self)@),
            fits(old(self)@) || !panics(sp_program(old(self)@).1),
        ensures
            wf(final(self)@),
            fits(old(self)@) ==> fits(final(self)@),
            (final(self)@, unit_outcome(r)) == sp_program(old(self)@),
    {
        match self.expect_keyword("void") {
            Err(e) => {
                return Err(e);
            },
            Ok(_) => {},
        }
        match self.expect_keyword("main") {
            Err(e) => {
                return Err(e);
            },
            Ok(_) => {},
        }
        match self.expect_keyword("(") {
            Err(e) => {
                return Err(e);
            },
            Ok(_) => {},
        }
        match self.expect_keyword(")") {
            Err(e) => {
                return Err(e);
            },
            Ok(_) => {},
        }
        match self.expect_keyword("{") {
            Err(e) => {
                return Err(e);
            },
            Ok(_) => {},
        }
        match self.declarations() {
            Err(e) => {
                return Err(e);
            },
            Ok(_) => {},
        }
        match self.statements() {
            Err(e) => {
                return Err(e);
            },
            Ok(_) => {},
        }
        match self.expect_keyword("}") {
            Err(e) => {
                return Err(e);
            },
            Ok(_) => {},
        }
        if self.file_tokens.len() > 0 {
            self.update_line();
            return Err(self.end_process());
        }
        self.output.append("after declarations:\n \n");
        Ok(())
    }

    /// Reads and runs the program, then writes the symbol table.
    pub fn run(&mut self) -> (r: Result<(), ParseFailure>)
        requires
            wf(old(self)@),
            fits(old(self)@) || !panics(sp_run(old(self)@).1),
        ensures
            wf(final(self)@),
            fits(old(self)@) ==> fits(final(self)@),
            (final(self)@, unit_outcome(r)) == sp_run(old(self)@),
            !panics(sp_run(old(self)@).1),
    {
        match self.program() {
            Err(e) => {
                return Err(e);
            },
            Ok(_) => {},
        }
        self.print_table();
        Ok(())
    }

    /// Writes the tokens left to read, each as `{:?}` shows it and followed
    /// by a space.
    pub fn show(&mut self)
        ensures
            final(self)@ == (PState {
                output: old(self)@.output + debug_listing(old(self)@.tokens),
                ..old(self)@
            }),
    {
        let ghost s = self@;
        let ghost base = self.output@;
        let mut i: usize = 0;
        assert(s.tokens.take(0) =~= Seq::<TokenView>::empty());
        assert(base + debug_listing(s.tokens.take(0)) =~= base);
        while i < self.file_tokens.len()
            invariant
                i <= self.file_tokens.len(),
                s.tokens == token_views(self.file_tokens@),
                self.output@ == base + debug_listing(s.tokens.take(i as int)),
                base == old(self).output@,
                self.file_tokens == old(self).file_tokens,
                self.line_control == old(self).line_control,
                self.grammar_tokens == old(self).grammar_tokens,
                self.symbol_table == old(self).symbol_table,
                self.declaration_flag == old(self).declaration_flag,
                self.current_expresion == old(self).current_expresion,
                self.if_statement == old(self).if_statement,
                self.expression_terms == old(self).expression_terms,
            decreases self.file_tokens.len() - i,
        {
            assert(s.tokens.take(i + 1).drop_last() =~= s.tokens.take(i as int));
            assert(s.tokens.take(i + 1).last() == s.tokens[i as int]);
            let v = debug_string(&self.file_tokens[i].value);
            self.output.append(v.as_str());
            push_char(&mut self.output, ' ');
            i += 1;
            assert(self.output@ =~= base + debug_listing(s.tokens.take(i as int)));
        }
        assert(s.tokens.take(self.file_tokens.len() as int) =~= s.tokens);
    }

    /// Puts the else-branch's tokens back in front of the tokens to read
    /// if the condition is false, and resets the `if` state.
    pub fn execute_else_body(&mut self)
        ensures
            wf(final(self)@),
            fits(old(self)@) ==> fits(final(self)@),
            final(self)@ == sp_execute_else_body(old(self)@),
    {
        proof {
            lemma_execute_if_body(self@);
        }
        if !self.if_statement.exp {
            let mut aux_vector = clone_tokens(&self.if_statement.else_body);
            let ghost a = token_views(aux_vector@);
            let ghost b = token_views(self.file_tokens@);
            aux_vector.append(&mut self.file_tokens);
            assert(token_views(aux_vector@) =~= a + b);
            self.file_tokens = aux_vector;
        }
        self.if_statement.else_body.clear();
        self.if_statement.else_is_active = false;
        self.if_statement.body.clear();
        self.if_statement.exp = false;
        self.if_statement.is_active = false;
        assert(token_views(self.if_statement.body@) =~= Seq::<TokenView>::empty());
        assert(token_views(self.if_statement.else_body@) =~= Seq::<TokenView>::empty());
    }

    /// Puts the then-branch's tokens back in front of the tokens to read
    /// if the condition is true, else the else-branch's, and resets the
    /// `if` state.
    pub fn execute_if_body(&mut self)
        ensures
            wf(final(self)@),
            fits(old(self)@) ==> fits(final(self)@),
            final(self)@ == sp_execute_if_body(old(self)@),
    {
        proof {
            lemma_execute_if_body(self@);
        }
        if self.if_statement.exp {
            let mut aux_vector = clone_tokens(&self.if_statement.body);
            let ghost a = token_views(aux_vector@);
            let ghost b = token_views(self.file_tokens@);
            aux_vector.append(&mut self.file_tokens);
            assert(token_views(aux_vector@) =~= a + b);
            self.file_tokens = aux_vector;
        } else {
            self.execute_else_body();
        }
        self.if_statement.body.clear();
        self.if_statement.exp = false;
        self.if_statement.is_active = false;
        self.if_statement.else_body.clear();
        self.if_statement.else_is_active = false;
        assert(token_views(self.if_statement.body@) =~= Seq::<TokenView>::empty());
        assert(token_views(self.if_statement.else_body@) =~= Seq::<TokenView>::empty());
    }

    /// `<Factor> ::= <Identifier> | <Literal> | ( <Expression> )`.
    pub fn factor(&mut self) -> (r: Result<bool, ParseFailure>)
        requires
            fits(old(self)@) || !panics(sp_level(0, old(self)@).1),
        ensures
            expr_post(old(self)@, final(self)@, outcome_of(r), 0),
        decreases old(self)@.tokens.len(), 0nat,
    {
        let ghost s = self@;
        proof {
            if s.tokens.len() > 0 {
                lemma_take(s);
            }
        }
        if self.identifier() || self.literal() {
            self.update_line();
            self.attach_to_expression();
            return Ok(true);
        } else if self.compare_to_top("(") {
            self.update_line();
            self.attach_to_expression();
            match self.expression() {
                Err(e) => {
                    return Err(e);
                },
                Ok(b) => {
                    if b && self.compare_to_top(")") {
                        proof {
                            lemma_take(self@);
                        }
                        self.update_line();
                        self.attach_to_expression();
                        return Ok(true);
                    }
                    return Err(self.end_process());
                },
            }
        }
        Ok(false)
    }

    /// `<Negation> ::= [ ! ] <Factor>`.
    pub fn negation(&mut self) -> (r: Result<bool, ParseFailure>)
        requires
            fits(old(self)@) || !panics(sp_level(1, old(self)@).1),
        ensures
            expr_post(old(self)@, final(self)@, outcome_of(r), 1),
        decreases old(self)@.tokens.len(), 1nat,
    {
        let ghost s = self@;
        if self.compare_to_top("!") {
            proof {
                lemma_take(s);
            }
            self.update_line();
            self.attach_to_expression();
            match self.factor() {
                Err(e) => {
                    return Err(e);
                },
                Ok(b) => {
                    if b {
                        return Ok(true);
                    }
                    return Err(self.end_process());
                },
            }
        }
        self.factor()
    }

    /// `<Term> ::= <Negation> { [ * | / ] <Negation> }*`.
    pub fn term(&mut self) -> (r: Result<bool, ParseFailure>)
        requires
            fits(old(self)@) || !panics(sp_level(2, old(self)@).1),
        ensures
            expr_post(old(self)@, final(self)@, outcome_of(r), 2),
        decreases old(self)@.tokens.len(), 2nat,
    {
        let ghost s0 = self@;
        match self.negation() {
            Err(e) => Err(e),
            Ok(b) => {
                if !b {
                    return Ok(false);
                }
                while self.compare_to_top("*") || self.compare_to_top("/")
                    invariant
                        s0 == old(self)@,
                        more_inv(s0, self@, 2),
                    decreases self.file_tokens.len(),
                {
                    proof {
                        lemma_take(self@);
                    }
                    self.update_line();
                    self.attach_to_expression();
                    match self.negation() {
                        Err(e) => {
                            return Err(e);
                        },
                        Ok(b3) => {
                            if !b3 {
                                return Err(self.end_process());
                            }
                        },
                    }
                }
                Ok(true)
            },
        }
    }

    /// `<Addition> ::= <Term> { [ + | - ] <Term> }*`.
    pub fn addition(&mut self) -> (r: Result<bool, ParseFailure>)
        requires
            fits(old(self)@) || !panics(sp_level(3, old(self)@).1),
        ensures
            expr_post(old(self)@, final(self)@, outcome_of(r), 3),
        decreases old(self)@.tokens.len(), 3nat,
    {
        let ghost s0 = self@;
        match self.term() {
            Err(e) => Err(e),
            Ok(b) => {
                if !b {
                    return Ok(false);
                }
                while self.compare_to_top("+") || self.compare_to_top("-")
                    invariant
                        s0 == old(self)@,
                        more_inv(s0, self@, 3),
                    decreases self.file_tokens.len(),
                {
                    proof {
                        lemma_take(self@);
                    }
                    self.update_line();
                    self.attach_to_expression();
                    match self.term() {
                        Err(e) => {
                            return Err(e);
                        },
                        Ok(b3) => {
                            if !b3 {
                                return Err(self.end_process());
                            }
                        },
                    }
                }
                Ok(true)
            },
        }
    }

    /// `<Relation> ::= <Addition> { [ > | >= | == | != | < | <= ] <Addition> }*`.
    pub fn relation(&mut self) -> (r: Result<bool, ParseFailure>)
        requires
            fits(old(self)@) || !panics(sp_level(4, old(self)@).1),
        ensures
            expr_post(old(self)@, final(self)@, outcome_of(r), 4),
        decreases old(self)@.tokens.len(), 4nat,
    {
        let ghost s0 = self@;
        match self.addition() {
            Err(e) => Err(e),
            Ok(b) => {
                if !b {
                    return Ok(false);
                }
                while self.compare_to_top(">") || self.compare_to_top(">=") || self.compare_to_top("==") || self.compare_to_top("!=") || self.compare_to_top("<") || self.compare_to_top("<=")
                    invariant
                        s0 == old(self)@,
                        more_inv(s0, self@, 4),
                    decreases self.file_tokens.len(),
                {
                    proof {
                        lemma_take(self@);
                    }
                    self.update_line();
                    self.attach_to_expression();
                    match self.addition() {
                        Err(e) => {
                            return Err(e);
                        },
                        Ok(b3) => {
                            if !b3 {
                                return Err(self.end_process());
                            }
                        },
                    }
                }
                Ok(true)
            },
        }
    }

    /// `<Conjunction> ::= <Relation> { && <Relation> }*`.
    pub fn conjunction(&mut self) -> (r: Result<bool, ParseFailure>)
        requires
            fits(old(self)@) || !panics(sp_level(5, old(self)@).1),
        ensures
            expr_post(old(self)@, final(self)@, outcome_of(r), 5),
        decreases old(self)@.tokens.len(), 5nat,
    {
        let ghost s0 = self@;
        match self.relation() {
            Err(e) => Err(e),
            Ok(b) => {
                if !b {
                    return Ok(false);
                }
                while self.compare_to_top("&&")
                    invariant
                        s0 == old(self)@,
                        more_inv(s0, self@, 5),
                    decreases self.file_tokens.len(),
                {
                    proof {
                        lemma_take(self@);
                    }
                    self.update_line();
                    self.attach_to_expression();
                    match self.relation() {
                        Err(e) => {
                            return Err(e);
                        },
                        Ok(b3) => {
                            if !b3 {
                                return Err(self.end_process());
                            }
                        },
                    }
                }
                Ok(true)
            },
        }
    }

    /// `<Expression> ::= <Conjunction> { || <Conjunction> }*`.
    pub fn expression(&mut self) -> (r: Result<bool, ParseFailure>)
        requires
            fits(old(self)@) || !panics(sp_level(6, old(self)@).1),
        ensures
            expr_post(old(self)@, final(self)@, outcome_of(r), 6),
        decreases old(self)@.tokens.len(), 6nat,
    {
        let ghost s0 = self@;
        match self.conjunction() {
            Err(e) => Err(e),
            Ok(b) => {
                if !b {
                    return Ok(false);
                }
                while self.compare_to_top("||")
                    invariant
                        s0 == old(self)@,
                        more_inv(s0, self@, 6),
                    decreases self.file_tokens.len(),
                {
                    proof {
                        lemma_take(self@);
                    }
                    self.update_line();
                    self.attach_to_expression();
                    match self.conjunction() {
                        Err(e) => {
                            return Err(e);
                        },
                        Ok(b3) => {
                            if !b3 {
                                return Err(self.end_process());
                            }
                        },
                    }
                }
                Ok(true)
            },
        }
    }
}

} // verus!
