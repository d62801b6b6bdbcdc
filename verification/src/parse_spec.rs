//! What the Jay parser does, stated as transitions of an abstract parser
//! state: each syntactic rule maps the state it starts in to the state it
//! leaves and to its outcome (matched, not matched, or the failure that
//! stops the analysis, a panic of the program included).
//!
//! A rule reads on after a sub-rule only from a state with less left to do
//! (`below`): fewer `if` keywords held, or as many and fewer tokens. The
//! parser's proofs show that this always holds, so the branches taken
//! otherwise, which keep the definitions total, are never reached.
use vstd::prelude::*;

use crate::evaluator::{evalexpr_outcome, h_free, lemma_h_free_names_no_shift, names_shift, EvalOutcome};
use crate::lexer::TokenView;
use crate::string_table::{first_match, is_of_kind, pairs_insert};
use crate::table_view::tabled_rounded;
use crate::text::{debug_text, decimal, decimal_nat, solid, space_pieces, spaced, trim};

verus! {

/// Why an analysis stopped, with the texts its message names.
pub enum FailureKindView {
    Syntax,
    UnassignedVariable,
    AlreadyDeclared(Seq<char>),
    UndeclaredVariable(Seq<char>),
    InvalidValue,
    InvalidExpression(Seq<char>),
    ExpectedBoolean,
    /// The program stops with a panic: it looks at an empty token or
    /// expression piece as a possible identifier (see `safe_text`), or it
    /// hands the evaluator a text that calls a shift function, which may
    /// panic.
    Panic,
}

/// A failure with the line the parser had reached.
pub struct FailureView {
    pub line: u32,
    pub kind: FailureKindView,
}

/// The outcome of a rule: whether it matched, or the failure that stops
/// the analysis.
pub type Outcome = Result<bool, FailureView>;

/// The state of the parser.
pub struct PState {
    /// The grammar's lexemes and their categories.
    pub grammar: Map<Seq<char>, Seq<char>>,
    /// The tokens still to be read.
    pub tokens: Seq<TokenView>,
    /// The line of the last token looked at.
    pub line: u32,
    /// The symbol table: each declared variable with its value (empty
    /// until assigned), in the order of declaration.
    pub symbols: Seq<(Seq<char>, Seq<char>)>,
    /// Whether the identifiers being read are being declared.
    pub declaring: bool,
    /// The text of the expression being read, each token followed by a space.
    pub expression: Seq<char>,
    /// The token values of that expression.
    pub terms: Seq<Seq<char>>,
    /// The value of the condition of the `if` being run.
    pub cond: bool,
    /// The tokens read as the `if`'s then-branch, to be read again.
    pub body: Seq<TokenView>,
    /// Whether an `if`'s then-branch is being read.
    pub active: bool,
    /// The tokens read as the `if`'s else-branch, to be read again.
    pub else_body: Seq<TokenView>,
    /// Whether an `if`'s else-branch is being read.
    pub else_active: bool,
    /// What the analysis has written to standard output.
    pub output: Seq<char>,
}

/// How many of `ts` are the keyword `if`.
pub open spec fn count_if(ts: Seq<TokenView>) -> nat
    decreases ts.len(),
{
    if ts.len() == 0 {
        0
    } else {
        (if ts[0].value == "if"@ {
            1nat
        } else {
            0nat
        }) + count_if(ts.drop_first())
    }
}

/// How many `if` keywords the parser still holds, read or to be read again.
pub open spec fn if_measure(s: PState) -> nat {
    count_if(s.tokens) + count_if(s.body) + count_if(s.else_body)
}

/// `a` has strictly less left to do than `b`: fewer `if` keywords, or as
/// many and fewer tokens to read.
pub open spec fn below(a: PState, b: PState) -> bool {
    if_measure(a) < if_measure(b) || (if_measure(a) == if_measure(b) && a.tokens.len()
        < b.tokens.len())
}

/// `a` has no more left to do than `b`.
pub open spec fn at_most(a: PState, b: PState) -> bool {
    below(a, b) || (if_measure(a) == if_measure(b) && a.tokens.len() == b.tokens.len())
}

/// The next token to read is `lit`.
pub open spec fn top_is(s: PState, lit: Seq<char>) -> bool {
    s.tokens.len() > 0 && s.tokens[0].value == lit
}

/// The grammar calls `v` a keyword.
pub open spec fn is_keyword(g: Map<Seq<char>, Seq<char>>, v: Seq<char>) -> bool {
    is_of_kind(g, v, "KEYWORD"@)
}

/// The grammar calls `c` a letter.
pub open spec fn is_letter(g: Map<Seq<char>, Seq<char>>, c: char) -> bool {
    is_of_kind(g, seq![c], "LETTER"@)
}

/// The grammar calls `c` a digit.
pub open spec fn is_number(g: Map<Seq<char>, Seq<char>>, c: char) -> bool {
    is_of_kind(g, seq![c], "NUMBER"@)
}

/// `v` is an identifier: no keyword, a letter, then letters and digits.
pub open spec fn identifier_text(g: Map<Seq<char>, Seq<char>>, v: Seq<char>) -> bool {
    &&& !is_keyword(g, v)
    &&& v.len() > 0
    &&& is_letter(g, v[0])
    &&& forall|j: int| 1 <= j < v.len() ==> is_letter(g, v[j]) || is_number(g, v[j])
}

/// `v` is made of digits only.
pub open spec fn integer_text(g: Map<Seq<char>, Seq<char>>, v: Seq<char>) -> bool {
    forall|j: int| 0 <= j < v.len() ==> is_number(g, v[j])
}

/// The parser can look at `v` as a possible identifier without stopping
/// the program: `v` is a keyword, or it has a first character to look at.
pub open spec fn safe_text(g: Map<Seq<char>, Seq<char>>, v: Seq<char>) -> bool {
    is_keyword(g, v) || v.len() > 0
}

/// A token the parser can handle: a solid value it can look at safely.
pub open spec fn token_fit(g: Map<Seq<char>, Seq<char>>, t: TokenView) -> bool {
    solid(t.value) && safe_text(g, t.value)
}

/// All of `ts` are tokens the parser can handle.
pub open spec fn all_fit(g: Map<Seq<char>, Seq<char>>, ts: Seq<TokenView>) -> bool {
    forall|i: int| 0 <= i < ts.len() ==> token_fit(g, #[trigger] ts[i])
}

/// The invariant of the parser's state: the else-branch is only read
/// inside an `if` being run.
pub open spec fn wf(s: PState) -> bool {
    s.else_active ==> s.active
}

/// A piece of an expression that the evaluator may be handed as it is:
/// either an identifier, which is replaced by a variable's value, or a
/// text without the letter `h`.
pub open spec fn plain_piece(g: Map<Seq<char>, Seq<char>>, v: Seq<char>) -> bool {
    identifier_text(g, v) || h_free(v)
}

/// A token that the expression rules attach to the expression: an
/// identifier, a literal, a parenthesis, `!` or an operator of a level.
pub open spec fn attach_piece(g: Map<Seq<char>, Seq<char>>, v: Seq<char>) -> bool {
    ||| identifier_text(g, v)
    ||| integer_text(g, v)
    ||| v == "true"@ || v == "false"@ || v == "("@ || v == ")"@ || v == "!"@
    ||| level_op(2, v) || level_op(3, v) || level_op(4, v) || level_op(5, v) || level_op(6, v)
}

/// The parser's tokens, kept branches and expression are all of tokens it
/// can handle (as the lexer's tokens are), the grammar's digits do not
/// include `h`, and no piece of the expression or value of a variable
/// holds an `h` (but for identifiers); from such a state no rule panics.
pub open spec fn fits(s: PState) -> bool {
    &&& all_fit(s.grammar, s.tokens)
    &&& all_fit(s.grammar, s.body)
    &&& all_fit(s.grammar, s.else_body)
    &&& forall|k: int|
        0 <= k < s.terms.len() ==> solid(#[trigger] s.terms[k]) && safe_text(s.grammar, s.terms[k])
            && plain_piece(s.grammar, s.terms[k])
    &&& s.expression == spaced(s.terms)
    &&& !is_number(s.grammar, 'h')
    &&& forall|k: int| 0 <= k < s.symbols.len() ==> h_free(#[trigger] s.symbols[k].1)
}

/// The outcome is the panic of the program.
pub open spec fn panics<T>(r: Result<T, FailureView>) -> bool {
    r matches Err(e) && e.kind is Panic
}

/// Looking at the next token as a possible identifier panics.
pub open spec fn identifier_panics(s: PState) -> bool {
    s.tokens.len() > 0 && !safe_text(s.grammar, s.tokens[0].value)
}

/// The program panics at the current line.
pub open spec fn panic_at(s: PState) -> (PState, Outcome) {
    fail(s, FailureKindView::Panic)
}

/// A failure of kind `kind` at the current line.
pub open spec fn fail(s: PState, kind: FailureKindView) -> (PState, Outcome) {
    (s, Err(FailureView { line: s.line, kind }))
}

/// A syntax error at the current line.
pub open spec fn syntax_error(s: PState) -> (PState, Outcome) {
    fail(s, FailureKindView::Syntax)
}

/// The line moved to that of the next token, if there is one.
pub open spec fn with_line(s: PState) -> PState {
    if s.tokens.len() > 0 {
        PState { line: s.tokens[0].line, ..s }
    } else {
        s
    }
}

/// The next token removed.
pub open spec fn drop_top(s: PState) -> PState {
    PState { tokens: s.tokens.drop_first(), ..s }
}

/// `t` kept for the branch of an `if` being read: in the then-branch's
/// tokens while it is read, in the else-branch's while the else-branch is
/// read and the condition is false.
pub open spec fn record(s: PState, t: TokenView) -> PState {
    if s.active && !s.else_active {
        PState { body: s.body.push(t), ..s }
    } else if s.else_active && !s.cond {
        PState { else_body: s.else_body.push(t), ..s }
    } else {
        s
    }
}

/// The next token read and kept for the branch being read.
pub open spec fn take(s: PState) -> PState {
    record(drop_top(with_line(s)), s.tokens[0])
}

/// The next token read without being kept.
pub open spec fn skip_top(s: PState) -> PState {
    drop_top(with_line(s))
}

/// The next token read, kept, and added to the expression's text.
pub open spec fn attach(s: PState) -> PState {
    let v = s.tokens[0].value;
    let s1 = record(drop_top(s), s.tokens[0]);
    PState { expression: s1.expression + v + seq![' '], terms: s1.terms.push(v), ..s1 }
}

/// The expression's text emptied.
pub open spec fn clear_expr(s: PState) -> PState {
    PState { expression: seq![], terms: seq![], ..s }
}

/// The next token is an identifier.
pub open spec fn at_identifier(s: PState) -> bool {
    s.tokens.len() > 0 && identifier_text(s.grammar, s.tokens[0].value)
}

/// The next token is a literal: `true`, `false` or digits.
pub open spec fn at_literal(s: PState) -> bool {
    top_is(s, "true"@) || top_is(s, "false"@) || (s.tokens.len() > 0 && integer_text(
        s.grammar,
        s.tokens[0].value,
    ))
}

/// The operators that continue an expression at level `k` (6: `||`,
/// 5: `&&`, 4: comparisons, 3: `+ -`, 2: `* /`).
pub open spec fn level_op(k: nat, v: Seq<char>) -> bool {
    if k == 6 {
        v == "||"@
    } else if k == 5 {
        v == "&&"@
    } else if k == 4 {
        v == ">"@ || v == ">="@ || v == "=="@ || v == "!="@ || v == "<"@ || v == "<="@
    } else if k == 3 {
        v == "+"@ || v == "-"@
    } else if k == 2 {
        v == "*"@ || v == "/"@
    } else {
        false
    }
}

/// The expression rules, level `k` of them: 6 expression, 5 conjunction,
/// 4 relation, 3 addition, 2 term, 1 negation, 0 factor. Each of levels 2
/// to 6 reads one item of the level below and then, for as long as one of
/// its operators comes next, that operator and one more item.
pub open spec fn sp_level(k: nat, s: PState) -> (PState, Outcome)
    decreases s.tokens.len(), k,
{
    if k == 0 {
        if identifier_panics(s) {
            panic_at(s)
        } else if at_identifier(s) || at_literal(s) {
            (attach(with_line(s)), Ok(true))
        } else if top_is(s, "("@) {
            let s1 = attach(with_line(s));
            if s1.tokens.len() < s.tokens.len() {
                let (s2, r2) = sp_level(6, s1);
                match r2 {
                    Err(e) => (s2, Err(e)),
                    Ok(b) => if b && top_is(s2, ")"@) {
                        (attach(with_line(s2)), Ok(true))
                    } else {
                        syntax_error(s2)
                    },
                }
            } else {
                syntax_error(s1)
            }
        } else {
            (s, Ok(false))
        }
    } else if k == 1 {
        if top_is(s, "!"@) {
            let s1 = attach(with_line(s));
            if s1.tokens.len() < s.tokens.len() {
                let (s2, r2) = sp_level(0, s1);
                match r2 {
                    Err(e) => (s2, Err(e)),
                    Ok(b) => if b {
                        (s2, Ok(true))
                    } else {
                        syntax_error(s2)
                    },
                }
            } else {
                syntax_error(s1)
            }
        } else {
            sp_level(0, s)
        }
    } else if k <= 6 {
        let (s1, r1) = sp_level((k - 1) as nat, s);
        match r1 {
            Err(e) => (s1, Err(e)),
            Ok(b) => if !b {
                (s1, Ok(false))
            } else if s1.tokens.len() < s.tokens.len() {
                sp_more(k, s1)
            } else {
                (s1, Ok(true))
            },
        }
    } else {
        (s, Ok(false))
    }
}

/// The rest of level `k` (2 to 6) after an item: while one of its
/// operators comes next, the operator and one more item of the level below.
pub open spec fn sp_more(k: nat, s: PState) -> (PState, Outcome)
    decreases s.tokens.len(), k,
{
    if 2 <= k <= 6 && s.tokens.len() > 0 && level_op(k, s.tokens[0].value) {
        let s2 = attach(with_line(s));
        let (s3, r3) = sp_level((k - 1) as nat, s2);
        match r3 {
            Err(e) => (s3, Err(e)),
            Ok(b3) => if !b3 {
                syntax_error(s3)
            } else if s3.tokens.len() < s.tokens.len() {
                sp_more(k, s3)
            } else {
                (s3, Ok(true))
            },
        }
    } else {
        (s, Ok(true))
    }
}

/// What substituting the pieces of an expression gives: the text for the
/// evaluator, or a variable without a value, or a panic.
pub enum Substitution {
    Text(Seq<char>),
    Unassigned,
    Panic,
}

/// A piece of an expression's text as it is handed to the evaluator: if it
/// is an identifier, the value of the variable it names (`Unassigned` if
/// it names none, or one with no value yet); else the piece itself. An
/// empty piece panics.
pub open spec fn substitute_piece(s: PState, p: Seq<char>) -> Substitution {
    if !safe_text(s.grammar, p) {
        Substitution::Panic
    } else if identifier_text(s.grammar, p) {
        match first_match(s.symbols, p) {
            Some(v) => if v.len() > 0 {
                Substitution::Text(v)
            } else {
                Substitution::Unassigned
            },
            None => Substitution::Unassigned,
        }
    } else {
        Substitution::Text(p)
    }
}

/// The pieces `ps` substituted in order and written one after the other;
/// the first piece that does not give a text decides.
pub open spec fn substitute(s: PState, ps: Seq<Seq<char>>) -> Substitution
    decreases ps.len(),
{
    if ps.len() == 0 {
        Substitution::Text(seq![])
    } else {
        match substitute(s, ps.drop_last()) {
            Substitution::Text(prefix) => match substitute_piece(s, ps.last()) {
                Substitution::Text(x) => Substitution::Text(prefix + x),
                other => other,
            },
            other => other,
        }
    }
}

/// The text handed to the evaluator for the current expression.
pub open spec fn eval_input(s: PState) -> Substitution {
    substitute(s, space_pieces(trim(s.expression)))
}

/// Evaluating the current expression: its pieces substituted, the text
/// evaluated, the expression emptied. A text that names a shift function
/// counts as a panic.
pub open spec fn sp_eval(s: PState) -> (PState, Result<EvalOutcome, FailureView>) {
    match eval_input(s) {
        Substitution::Unassigned => (
            s,
            Err(FailureView { line: s.line, kind: FailureKindView::UnassignedVariable }),
        ),
        Substitution::Panic => (s, Err(FailureView { line: s.line, kind: FailureKindView::Panic })),
        Substitution::Text(text) => if names_shift(text) {
            (s, Err(FailureView { line: s.line, kind: FailureKindView::Panic }))
        } else {
            match evalexpr_outcome(text) {
                EvalOutcome::Failed => (
                    s,
                    Err(FailureView { line: s.line, kind: FailureKindView::InvalidExpression(text) }),
                ),
                o => (clear_expr(s), Ok(o)),
            }
        },
    }
}

/// The text a variable holds after being given an evaluated value: an
/// integer in decimal, a boolean as `true` or `false`; nothing else.
pub open spec fn value_text_of(o: EvalOutcome) -> Option<Seq<char>> {
    match o {
        EvalOutcome::Int(v) => Some(decimal(v as int)),
        EvalOutcome::Boolean(b) => Some(bool_text(b)),
        _ => None,
    }
}

/// `true` or `false`.
pub open spec fn bool_text(b: bool) -> Seq<char> {
    if b {
        "true"@
    } else {
        "false"@
    }
}

/// The records shown for a symbol table: each variable that has a value,
/// with that value, in order.
pub open spec fn table_rows(syms: Seq<(Seq<char>, Seq<char>)>) -> Seq<Seq<Seq<char>>>
    decreases syms.len(),
{
    if syms.len() == 0 {
        seq![]
    } else if syms.last().1.len() > 0 {
        table_rows(syms.drop_last()).push(seq![syms.last().0, syms.last().1])
    } else {
        table_rows(syms.drop_last())
    }
}

/// The symbol table drawn as text, after an empty line, and a newline.
pub open spec fn table_text(syms: Seq<(Seq<char>, Seq<char>)>) -> Seq<char> {
    seq!['\n'] + tabled_rounded(seq!["Variable"@, "Valor"@], table_rows(syms)) + seq!['\n']
}

/// The symbol table written to the output.
pub open spec fn print_table(s: PState) -> PState {
    PState { output: s.output + table_text(s.symbols), ..s }
}

/// An assignment to `name` run: the expression evaluated and its value
/// stored, the table written.
pub open spec fn sp_run_assignment(s: PState, name: Seq<char>) -> (PState, Outcome) {
    if first_match(s.symbols, name) is None {
        fail(s, FailureKindView::UndeclaredVariable(name))
    } else {
        let (s1, r1) = sp_eval(s);
        match r1 {
            Err(e) => (s1, Err(e)),
            Ok(o) => match value_text_of(o) {
                None => fail(s1, FailureKindView::InvalidValue),
                Some(text) => (
                    print_table(PState { symbols: pairs_insert(s1.symbols, name, text), ..s1 }),
                    Ok(true),
                ),
            },
        }
    }
}

/// `<Assignment> ::= <Identifier> = <Expression> ;`, run unless a branch
/// of an `if` is being read.
pub open spec fn sp_assignment(s: PState) -> (PState, Outcome) {
    if identifier_panics(s) {
        panic_at(s)
    } else if !at_identifier(s) {
        (s, Ok(false))
    } else {
        let name = s.tokens[0].value;
        let s1 = take(s);
        if !top_is(s1, "="@) {
            syntax_error(s1)
        } else {
            let s2 = take(s1);
            let (s3, r3) = sp_level(6, s2);
            match r3 {
                Err(e) => (s3, Err(e)),
                Ok(b) => if b && top_is(s3, ";"@) {
                    let (s4, r4) = if s3.active || s3.else_active {
                        (clear_expr(s3), Ok(true))
                    } else {
                        sp_run_assignment(s3, name)
                    };
                    match r4 {
                        Err(e) => (s4, Err(e)),
                        Ok(_) => (take(s4), Ok(true)),
                    }
                } else {
                    syntax_error(s3)
                },
            }
        }
    }
}

/// The values of `ts`, each followed by a space.
pub open spec fn listing(ts: Seq<TokenView>) -> Seq<char>
    decreases ts.len(),
{
    if ts.len() == 0 {
        seq![]
    } else {
        listing(ts.drop_last()) + ts.last().value + seq![' ']
    }
}

/// The if machinery reset: no branch being read, none kept.
pub open spec fn reset_if(s: PState) -> PState {
    PState { cond: false, body: seq![], active: false, else_body: seq![], else_active: false, ..s }
}

/// The else-branch's tokens put back in front of the tokens to read if the
/// condition is false; the if machinery reset.
pub open spec fn sp_execute_else_body(s: PState) -> PState {
    if !s.cond {
        reset_if(PState { tokens: s.else_body + s.tokens, ..s })
    } else {
        reset_if(s)
    }
}

/// The then-branch's tokens put back in front of the tokens to read if the
/// condition is true, else the else-branch's; the if machinery reset.
pub open spec fn sp_execute_if_body(s: PState) -> PState {
    if s.cond {
        reset_if(PState { tokens: s.body + s.tokens, ..s })
    } else {
        reset_if(sp_execute_else_body(s))
    }
}

/// What the `if` writes when it starts its then-branch.
pub open spec fn main_body_text(s: PState) -> Seq<char> {
    "\nmain body\n"@ + listing(s.tokens) + "if: "@ + bool_text(s.cond) + seq!['\n']
}

/// `( <Expression> )` after `if` or `while`, read and kept.
pub open spec fn sp_condition(s: PState) -> (PState, Outcome) {
    if !top_is(s, "("@) {
        syntax_error(s)
    } else {
        let s1 = take(s);
        let (s2, r2) = sp_level(6, s1);
        match r2 {
            Err(e) => (s2, Err(e)),
            Ok(b) => if b && top_is(s2, ")"@) {
                (take(s2), Ok(true))
            } else {
                syntax_error(s2)
            },
        }
    }
}

/// `{ <Statement> }*`: statements read until one does not match.
pub open spec fn sp_statements(s: PState) -> (PState, Outcome)
    decreases if_measure(s), s.tokens.len(), 2nat,
{
    let (s1, r1) = sp_statement(s);
    match r1 {
        Err(e) => (s1, Err(e)),
        Ok(b) => if b {
            if below(s1, s) {
                sp_statements(s1)
            } else {
                (s1, Ok(false))
            }
        } else {
            (s1, Ok(false))
        },
    }
}

/// `<Statement> ::= <Block> | <Assignment> | <IfStatement> | <WhileStatement>`.
pub open spec fn sp_statement(s: PState) -> (PState, Outcome)
    decreases if_measure(s), s.tokens.len(), 1nat,
{
    let (s1, r1) = sp_block(s);
    match r1 {
        Err(e) => (s1, Err(e)),
        Ok(true) => (s1, Ok(true)),
        Ok(false) => {
            let (s2, r2) = sp_assignment(s);
            match r2 {
                Err(e) => (s2, Err(e)),
                Ok(true) => (s2, Ok(true)),
                Ok(false) => {
                    let (s3, r3) = sp_if_statement(s);
                    match r3 {
                        Err(e) => (s3, Err(e)),
                        Ok(true) => (s3, Ok(true)),
                        Ok(false) => sp_while_statement(s),
                    }
                },
            }
        },
    }
}

/// `<Block> ::= { <Statements> }`.
pub open spec fn sp_block(s: PState) -> (PState, Outcome)
    decreases if_measure(s), s.tokens.len(), 0nat,
{
    if !top_is(s, "{"@) {
        (s, Ok(false))
    } else {
        let s1 = take(s);
        if below(s1, s) {
            let (s2, r2) = sp_statements(s1);
            match r2 {
                Err(e) => (s2, Err(e)),
                Ok(b) => if b || top_is(s2, "}"@) {
                    (take(s2), Ok(true))
                } else {
                    syntax_error(s2)
                },
            }
        } else {
            syntax_error(s1)
        }
    }
}

/// `<IfStatement> ::= if ( <Expression> ) <Statement> [ else <Statement> ]`.
/// At the top, the condition is evaluated and the statements are read
/// while their tokens are kept; then the kept tokens of the branch the
/// condition selects are put back to be read (and run) again. Inside a
/// branch being read, only `if ( <Expression> )` is read.
pub open spec fn sp_if_statement(s: PState) -> (PState, Outcome)
    decreases if_measure(s), s.tokens.len(), 0nat,
{
    if !top_is(s, "if"@) {
        (s, Ok(false))
    } else {
        let s1 = take(s);
        let (s4, r4) = sp_condition(s1);
        match r4 {
            Err(e) => (s4, Err(e)),
            Ok(_) => {
                let (s5, r5) = if !s4.active {
                    let (e1, er) = sp_eval(s4);
                    match er {
                        Err(e) => (e1, Err(e)),
                        Ok(EvalOutcome::Boolean(c)) => (PState { cond: c, ..e1 }, Ok(true)),
                        Ok(_) => fail(e1, FailureKindView::ExpectedBoolean),
                    }
                } else {
                    (clear_expr(s4), Ok(true))
                };
                match r5 {
                    Err(e) => (s5, Err(e)),
                    Ok(_) => if !s5.active {
                        let s6 = PState {
                            output: s5.output + main_body_text(s5),
                            active: true,
                            ..s5
                        };
                        if below(s6, s) {
                            let (s7, r7) = sp_statement(s6);
                            match r7 {
                                Err(e) => (s7, Err(e)),
                                Ok(b7) => if !b7 {
                                    syntax_error(s7)
                                } else if top_is(s7, "else"@) && s7.else_active {
                                    (s7, Ok(true))
                                } else if top_is(s7, "else"@) {
                                    let s8 = skip_top(PState { else_active: true, ..s7 });
                                    if below(s8, s) {
                                        let (s9, r9) = sp_statement(s8);
                                        match r9 {
                                            Err(e) => (s9, Err(e)),
                                            Ok(_) => (sp_execute_if_body(s9), Ok(true)),
                                        }
                                    } else {
                                        syntax_error(s8)
                                    }
                                } else {
                                    (sp_execute_if_body(s7), Ok(true))
                                },
                            }
                        } else {
                            syntax_error(s6)
                        }
                    } else {
                        (s5, Ok(true))
                    },
                }
            },
        }
    }
}

/// `<WhileStatement> ::= while ( <Expression> ) <Statement>`: the
/// condition is evaluated once and must be a boolean; the statement is
/// read once.
pub open spec fn sp_while_statement(s: PState) -> (PState, Outcome)
    decreases if_measure(s), s.tokens.len(), 0nat,
{
    if !top_is(s, "while"@) {
        (s, Ok(false))
    } else {
        let s1 = take(s);
        let (s4, r4) = sp_condition(s1);
        match r4 {
            Err(e) => (s4, Err(e)),
            Ok(_) => {
                let (s5, r5) = sp_eval(s4);
                match r5 {
                    Err(e) => (s5, Err(e)),
                    Ok(EvalOutcome::Boolean(_)) => if below(s5, s) {
                        let (s6, r6) = sp_statement(s5);
                        match r6 {
                            Err(e) => (s6, Err(e)),
                            Ok(b) => if b {
                                (s6, Ok(true))
                            } else {
                                syntax_error(s6)
                            },
                        }
                    } else {
                        syntax_error(s5)
                    },
                    Ok(_) => fail(s5, FailureKindView::ExpectedBoolean),
                }
            },
        }
    }
}

/// `<Identifiers> ::= <Identifier> { , <Identifier> }*`, each identifier
/// entered in the symbol table with no value while declaring.
pub open spec fn sp_identifiers(s: PState) -> (PState, Outcome)
    decreases s.tokens.len(),
{
    if identifier_panics(s) {
        panic_at(s)
    } else if !at_identifier(s) {
        (s, Ok(false))
    } else {
        let name = s.tokens[0].value;
        let s1 = with_line(s);
        let s2 = drop_top(s1);
        if s1.declaring && first_match(s2.symbols, name) is Some {
            fail(s2, FailureKindView::AlreadyDeclared(name))
        } else {
            let s3 = if s1.declaring {
                PState { symbols: pairs_insert(s2.symbols, name, seq![]), ..s2 }
            } else {
                s2
            };
            if top_is(s3, ","@) {
                let s4 = skip_top(s3);
                if s4.tokens.len() < s.tokens.len() {
                    sp_identifiers(s4)
                } else {
                    syntax_error(s4)
                }
            } else {
                (PState { declaring: false, ..s3 }, Ok(true))
            }
        }
    }
}

/// `<Declaration> ::= <Type> <Identifiers> ;` with `<Type> ::= int | boolean`.
pub open spec fn sp_declaration(s: PState) -> (PState, Outcome) {
    if !(top_is(s, "int"@) || top_is(s, "boolean"@)) {
        (s, Ok(false))
    } else {
        let s1 = PState { declaring: true, ..skip_top(s) };
        let (s2, r2) = sp_identifiers(s1);
        match r2 {
            Err(e) => (s2, Err(e)),
            Ok(b) => if !b || !top_is(s2, ";"@) {
                syntax_error(s2)
            } else {
                (skip_top(s2), Ok(true))
            },
        }
    }
}

/// `<Declarations> ::= { <Declaration> }*`.
pub open spec fn sp_declarations(s: PState) -> (PState, Outcome)
    decreases s.tokens.len(),
{
    let (s1, r1) = sp_declaration(s);
    match r1 {
        Err(e) => (s1, Err(e)),
        Ok(b) => if b && s1.tokens.len() < s.tokens.len() {
            sp_declarations(s1)
        } else {
            (s1, Ok(false))
        },
    }
}

/// The keyword `lit` read without being kept, or a syntax error.
pub open spec fn expect(s: PState, lit: Seq<char>) -> (PState, Outcome) {
    if top_is(s, lit) {
        (skip_top(s), Ok(true))
    } else {
        syntax_error(s)
    }
}

/// `void main ( ) {`, each keyword read in turn.
pub open spec fn sp_program_head(s: PState) -> (PState, Outcome) {
    let (a, ra) = expect(s, "void"@);
    if ra is Err {
        (a, ra)
    } else {
        let (b, rb) = expect(a, "main"@);
        if rb is Err {
            (b, rb)
        } else {
            let (c, rc) = expect(b, "("@);
            if rc is Err {
                (c, rc)
            } else {
                let (d, rd) = expect(c, ")"@);
                if rd is Err {
                    (d, rd)
                } else {
                    expect(d, "{"@)
                }
            }
        }
    }
}

/// `<Program> ::= void main ( ) { <Declarations> <Statements> }` and
/// nothing after it.
pub open spec fn sp_program(s: PState) -> (PState, Outcome) {
    let (s1, r1) = sp_program_head(s);
    match r1 {
        Err(e) => (s1, Err(e)),
        Ok(_) => {
            let (s2, r2) = sp_declarations(s1);
            match r2 {
                Err(e) => (s2, Err(e)),
                Ok(_) => {
                    let (s3, r3) = sp_statements(s2);
                    match r3 {
                        Err(e) => (s3, Err(e)),
                        Ok(_) => if !top_is(s3, "}"@) {
                            syntax_error(s3)
                        } else {
                            let s4 = skip_top(s3);
                            if s4.tokens.len() > 0 {
                                syntax_error(with_line(s4))
                            } else {
                                (
                                    PState {
                                        output: s4.output + "after declarations:\n \n"@,
                                        ..s4
                                    },
                                    Ok(true),
                                )
                            }
                        },
                    }
                },
            }
        },
    }
}

/// A whole run: the program read and run, then the symbol table written.
pub open spec fn sp_run(s: PState) -> (PState, Outcome) {
    let (s1, r1) = sp_program(s);
    match r1 {
        Err(e) => (s1, Err(e)),
        Ok(_) => (print_table(s1), Ok(true)),
    }
}

/// The state a parser starts in over `tokens`.
pub open spec fn initial_state(g: Map<Seq<char>, Seq<char>>, tokens: Seq<TokenView>) -> PState {
    PState {
        grammar: g,
        tokens,
        line: 1,
        symbols: seq![],
        declaring: false,
        expression: seq![],
        terms: seq![],
        cond: false,
        body: seq![],
        active: false,
        else_body: seq![],
        else_active: false,
        output: seq![],
    }
}

/// The `if` keywords of two token runs add up.
pub proof fn lemma_count_if_concat(a: Seq<TokenView>, b: Seq<TokenView>)
    ensures
        count_if(a + b) == count_if(a) + count_if(b),
    decreases a.len(),
{
    if a.len() == 0 {
        assert(a + b =~= b);
    } else {
        assert((a + b).drop_first() =~= a.drop_first() + b);
        assert((a + b)[0] == a[0]);
        lemma_count_if_concat(a.drop_first(), b);
    }
}

/// Appending a token adds one `if` if it is one.
pub proof fn lemma_count_if_push(a: Seq<TokenView>, t: TokenView)
    ensures
        count_if(a.push(t)) == count_if(a) + (if t.value == "if"@ {
            1nat
        } else {
            0nat
        }),
{
    lemma_count_if_concat(a, seq![t]);
    assert(a.push(t) =~= a + seq![t]);
    assert(seq![t].drop_first() =~= Seq::<TokenView>::empty());
    assert(count_if(Seq::<TokenView>::empty()) == 0);
    assert(seq![t][0] == t);
}

/// Every suffix and every token of a run that fits fits too.
pub proof fn lemma_all_fit_parts(g: Map<Seq<char>, Seq<char>>, a: Seq<TokenView>)
    requires
        all_fit(g, a),
    ensures
        a.len() > 0 ==> all_fit(g, a.drop_first()),
        a.len() > 0 ==> token_fit(g, a[0]),
{
    if a.len() > 0 {
        assert forall|i: int| 0 <= i < a.drop_first().len() implies token_fit(
            g,
            #[trigger] a.drop_first()[i],
        ) by {
            assert(a.drop_first()[i] == a[i + 1]);
        }
    }
}

/// Runs that fit stay fitting when joined or extended.
pub proof fn lemma_all_fit_join(g: Map<Seq<char>, Seq<char>>, a: Seq<TokenView>, b: Seq<TokenView>)
    requires
        all_fit(g, a),
        all_fit(g, b),
    ensures
        all_fit(g, a + b),
{
    assert forall|i: int| 0 <= i < (a + b).len() implies token_fit(g, #[trigger] (a + b)[i]) by {
        if i < a.len() {
            assert((a + b)[i] == a[i]);
        } else {
            assert((a + b)[i] == b[i - a.len()]);
        }
    }
}

/// Reading the next token keeps the invariants, leaves one token fewer, and
/// does not add `if` keywords.
pub proof fn lemma_take(s: PState)
    requires
        s.tokens.len() > 0,
    ensures
        wf(s) ==> wf(take(s)),
        fits(s) ==> fits(take(s)),
        take(s).tokens.len() == s.tokens.len() - 1,
        if_measure(take(s)) <= if_measure(s),
        !s.active && !s.else_active ==> if_measure(take(s)) + (if s.tokens[0].value == "if"@ {
            1nat
        } else {
            0nat
        }) == if_measure(s),
        below(take(s), s),
        wf(s) ==> wf(attach(with_line(s))),
        fits(s) && attach_piece(s.grammar, s.tokens[0].value) ==> fits(attach(with_line(s))),
        attach(with_line(s)).tokens.len() == s.tokens.len() - 1,
        if_measure(attach(with_line(s))) <= if_measure(s),
        below(attach(with_line(s)), s),
        wf(s) ==> wf(skip_top(s)),
        fits(s) ==> fits(skip_top(s)),
        skip_top(s).tokens.len() == s.tokens.len() - 1,
        if_measure(skip_top(s)) <= if_measure(s),
{
    let t = s.tokens[0];
    assert(s.tokens =~= seq![t] + s.tokens.drop_first());
    lemma_count_if_concat(seq![t], s.tokens.drop_first());
    assert(seq![t].drop_first() =~= Seq::<TokenView>::empty());
    lemma_count_if_push(s.body, t);
    lemma_count_if_push(s.else_body, t);
    if fits(s) {
        lemma_all_fit_parts(s.grammar, s.tokens);
        lemma_all_fit_join(s.grammar, s.body, seq![t]);
        lemma_all_fit_join(s.grammar, s.else_body, seq![t]);
        assert(s.body.push(t) =~= s.body + seq![t]);
        assert(s.else_body.push(t) =~= s.else_body + seq![t]);
        let a = attach(with_line(s));
        assert(a.terms == s.terms.push(t.value));
        assert(spaced(s.terms.push(t.value)) == spaced(s.terms) + t.value + seq![' ']) by {
            assert(s.terms.push(t.value).drop_last() =~= s.terms);
        }
        if attach_piece(s.grammar, t.value) {
            lemma_attach_pieces_plain(s.grammar, t.value);
        }
        assert forall|k: int| 0 <= k < a.terms.len() implies solid(#[trigger] a.terms[k])
            && safe_text(a.grammar, a.terms[k]) && (attach_piece(s.grammar, t.value) ==> plain_piece(
            a.grammar,
            a.terms[k],
        )) by {
            if k < s.terms.len() {
                assert(a.terms[k] == s.terms[k]);
            }
        }
    }
}

/// The tokens that the expression rules attach are plain pieces when the
/// grammar's digits do not include `h`.
proof fn lemma_attach_pieces_plain(g: Map<Seq<char>, Seq<char>>, v: Seq<char>)
    requires
        attach_piece(g, v),
        !is_number(g, 'h'),
    ensures
        plain_piece(g, v),
{
    reveal_strlit("true");
    reveal_strlit("false");
    reveal_strlit("(");
    reveal_strlit(")");
    reveal_strlit("!");
    reveal_strlit("*");
    reveal_strlit("/");
    reveal_strlit("+");
    reveal_strlit("-");
    reveal_strlit(">");
    reveal_strlit(">=");
    reveal_strlit("==");
    reveal_strlit("!=");
    reveal_strlit("<");
    reveal_strlit("<=");
    reveal_strlit("&&");
    reveal_strlit("||");
    if !identifier_text(g, v) {
        assert forall|i: int| 0 <= i < v.len() implies #[trigger] v[i] != 'h' by {
            if integer_text(g, v) {
                assert(is_number(g, v[i]));
            }
        }
    }
}

/// A substituted text holds no `h` when no piece but identifiers and no
/// variable's value holds one.
pub proof fn lemma_substitute_h_free(s: PState, ps: Seq<Seq<char>>)
    requires
        forall|k: int| 0 <= k < ps.len() ==> plain_piece(s.grammar, #[trigger] ps[k]),
        forall|k: int| 0 <= k < s.symbols.len() ==> h_free(#[trigger] s.symbols[k].1),
    ensures
        substitute(s, ps) matches Substitution::Text(t) ==> h_free(t),
    decreases ps.len(),
{
    if ps.len() > 0 {
        let p = ps.drop_last();
        assert forall|k: int| 0 <= k < p.len() implies plain_piece(s.grammar, #[trigger] p[k]) by {
            assert(p[k] == ps[k]);
        }
        lemma_substitute_h_free(s, p);
        let last = ps.last();
        assert(plain_piece(s.grammar, ps[ps.len() - 1]));
        if identifier_text(s.grammar, last) {
            lemma_first_match_h_free(s.symbols, last);
        }
        if let Substitution::Text(prefix) = substitute(s, p) {
            if let Substitution::Text(x) = substitute_piece(s, last) {
                assert forall|i: int| 0 <= i < (prefix + x).len() implies #[trigger] (prefix
                    + x)[i] != 'h' by {
                    if i >= prefix.len() {
                        assert((prefix + x)[i] == x[i - prefix.len()]);
                    }
                }
            }
        }
    }
}

proof fn lemma_decimal_nat_h_free(n: nat)
    ensures
        h_free(decimal_nat(n)),
    decreases n,
{
    if n >= 10 {
        lemma_decimal_nat_h_free(n / 10);
        let p = decimal_nat(n / 10);
        assert forall|i: int| 0 <= i < decimal_nat(n).len() implies #[trigger] decimal_nat(n)[i]
            != 'h' by {
            if i < p.len() {
                assert(decimal_nat(n)[i] == p[i]);
            }
        }
    }
}

/// The text a variable is given holds no `h`.
pub proof fn lemma_value_text_h_free(o: EvalOutcome)
    ensures
        value_text_of(o) matches Some(t) ==> h_free(t),
{
    reveal_strlit("true");
    reveal_strlit("false");
    if let EvalOutcome::Int(v) = o {
        let n = v as int;
        if n < 0 {
            lemma_decimal_nat_h_free((-n) as nat);
            let d = decimal_nat((-n) as nat);
            assert forall|i: int| 0 <= i < (seq!['-'] + d).len() implies #[trigger] (seq!['-']
                + d)[i] != 'h' by {
                if i > 0 {
                    assert((seq!['-'] + d)[i] == d[i - 1]);
                }
            }
        } else {
            lemma_decimal_nat_h_free(n as nat);
        }
    }
}

proof fn lemma_first_match_h_free(syms: Seq<(Seq<char>, Seq<char>)>, k: Seq<char>)
    requires
        forall|j: int| 0 <= j < syms.len() ==> h_free(#[trigger] syms[j].1),
    ensures
        first_match(syms, k) matches Some(v) ==> h_free(v),
    decreases syms.len(),
{
    if syms.len() > 0 {
        assert(h_free(syms[0].1));
        if syms[0].0 != k {
            let d = syms.drop_first();
            assert forall|j: int| 0 <= j < d.len() implies h_free(#[trigger] d[j].1) by {
                assert(d[j] == syms[j + 1]);
            }
            lemma_first_match_h_free(d, k);
        }
    }
}

/// Putting the kept branch back keeps the invariants and adds no `if`
/// keywords.
pub proof fn lemma_execute_if_body(s: PState)
    ensures
        wf(sp_execute_if_body(s)),
        fits(s) ==> fits(sp_execute_if_body(s)),
        if_measure(sp_execute_if_body(s)) <= if_measure(s),
        !sp_execute_if_body(s).active,
        !sp_execute_if_body(s).else_active,
        wf(sp_execute_else_body(s)),
        fits(s) ==> fits(sp_execute_else_body(s)),
        if_measure(sp_execute_else_body(s)) <= if_measure(s),
{
    lemma_count_if_concat(s.body, s.tokens);
    lemma_count_if_concat(s.else_body, s.tokens);
    if fits(s) {
        lemma_all_fit_join(s.grammar, s.body, s.tokens);
        lemma_all_fit_join(s.grammar, s.else_body, s.tokens);
    }
    assert(count_if(Seq::<TokenView>::empty()) == 0);
}

/// Once a prefix of the pieces does not give a text, the whole gives what
/// that prefix gives.
pub proof fn lemma_substitute_stop(s: PState, ps: Seq<Seq<char>>, j: int)
    requires
        0 <= j <= ps.len(),
        !(substitute(s, ps.take(j)) is Text),
    ensures
        substitute(s, ps) == substitute(s, ps.take(j)),
    decreases ps.len() - j,
{
    if j == ps.len() {
        assert(ps.take(j) =~= ps);
    } else {
        assert(ps.take(j + 1).drop_last() =~= ps.take(j));
        lemma_substitute_stop(s, ps, j + 1);
    }
}

/// The values of `ts` as `{:?}` writes them, each followed by a space.
pub open spec fn debug_listing(ts: Seq<TokenView>) -> Seq<char>
    decreases ts.len(),
{
    if ts.len() == 0 {
        seq![]
    } else {
        debug_listing(ts.drop_last()) + debug_text(ts.last().value) + seq![' ']
    }
}

/// A run that succeeds has read every token of the program.
pub proof fn law_successful_run_reads_everything(s: PState)
    ensures
        sp_run(s).1 is Ok ==> sp_run(s).0.tokens.len() == 0,
{
}

/// The table shows only variables that have a value: each record is a
/// variable of the symbol table with its value, which is not empty.
pub proof fn law_shown_rows_are_assigned(syms: Seq<(Seq<char>, Seq<char>)>)
    ensures
        forall|i: int|
            0 <= i < table_rows(syms).len() ==> {
                &&& (#[trigger] table_rows(syms)[i]).len() == 2
                &&& table_rows(syms)[i][1].len() > 0
                &&& syms.contains((table_rows(syms)[i][0], table_rows(syms)[i][1]))
            },
    decreases syms.len(),
{
    if syms.len() > 0 {
        let p = syms.drop_last();
        law_shown_rows_are_assigned(p);
        assert forall|x: (Seq<char>, Seq<char>)| p.contains(x) implies syms.contains(x) by {
            let j = choose|j: int| 0 <= j < p.len() && p[j] == x;
            assert(syms[j] == x);
        }
        assert(syms[syms.len() - 1] == syms.last());
        let rows = table_rows(syms);
        let prev = table_rows(p);
        if syms.last().1.len() > 0 {
            assert forall|i: int| 0 <= i < rows.len() implies {
                &&& (#[trigger] rows[i]).len() == 2
                &&& rows[i][1].len() > 0
                &&& syms.contains((rows[i][0], rows[i][1]))
            } by {
                if i < prev.len() {
                    assert(rows[i] == prev[i]);
                } else {
                    assert(rows[i] == seq![syms.last().0, syms.last().1]);
                }
            }
        }
    }
}

/// A declared variable has no value until it is assigned: reading a
/// declaration enters each new name with an empty value.
pub proof fn law_declared_variables_start_empty(s: PState, x: Seq<char>)
    requires
        s.declaring,
        at_identifier(s),
        first_match(s.symbols, s.tokens[0].value) is None,
        sp_identifiers(s).1 is Ok,
    ensures
        first_match(sp_identifiers(s).0.symbols, s.tokens[0].value) == Some(Seq::<char>::empty()),
    decreases s.tokens.len(),
{
    let name = s.tokens[0].value;
    let s2 = drop_top(with_line(s));
    let s3 = PState { symbols: pairs_insert(s2.symbols, name, seq![]), ..s2 };
    crate::string_table::law_insert_then_lookup(s2.symbols, name, seq![], name);
    assert(first_match(s3.symbols, name) == Some(Seq::<char>::empty()));
    if top_is(s3, ","@) {
        let s4 = skip_top(s3);
        lemma_identifiers_keep(s4, name, seq![]);
    }
}

proof fn lemma_identifiers_keep(s: PState, name: Seq<char>, v: Seq<char>)
    requires
        first_match(s.symbols, name) == Some(v),
    ensures
        first_match(sp_identifiers(s).0.symbols, name) == Some(v),
    decreases s.tokens.len(),
{
    if !identifier_panics(s) && at_identifier(s) {
        let n = s.tokens[0].value;
        let s1 = with_line(s);
        let s2 = drop_top(s1);
        if !(s1.declaring && first_match(s2.symbols, n) is Some) {
            let s3 = if s1.declaring {
                PState { symbols: pairs_insert(s2.symbols, n, seq![]), ..s2 }
            } else {
                s2
            };
            if s1.declaring {
                crate::string_table::law_insert_then_lookup(s2.symbols, n, seq![], name);
            }
            if top_is(s3, ","@) {
                let s4 = skip_top(s3);
                if s4.tokens.len() < s.tokens.len() {
                    lemma_identifiers_keep(s4, name, v);
                }
            }
        }
    }
}

/// An assignment that succeeds stores, under the assigned name, the text
/// of the value its expression evaluated to; the name then gives back that
/// text.
pub proof fn law_assignment_stores_value(s: PState, name: Seq<char>)
    ensures
        sp_run_assignment(s, name).1 is Ok ==> {
            &&& sp_eval(s).1 is Ok
            &&& value_text_of(sp_eval(s).1->Ok_0) is Some
            &&& first_match(sp_run_assignment(s, name).0.symbols, name) == value_text_of(
                sp_eval(s).1->Ok_0,
            )
        },
{
    let (s1, r1) = sp_eval(s);
    if let Ok(o) = r1 {
        if let Some(text) = value_text_of(o) {
            crate::string_table::law_insert_then_lookup(s1.symbols, name, text, name);
        }
    }
}

} // verus!
