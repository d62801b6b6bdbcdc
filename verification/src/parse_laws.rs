//! Laws of the Jay parser: what its rules do, stated over their inputs and
//! results and proved from the transitions of `parse_spec`.
use vstd::prelude::*;

use crate::evaluator::EvalOutcome;
use crate::lexer::TokenView;
use crate::parse_spec::{
    at_identifier, attach, below, level_op, main_body_text, skip_top, sp_execute_if_body, FailureKindView, clear_expr, identifier_panics, if_measure, lemma_count_if_concat,
    print_table, sp_assignment, sp_block, sp_condition, sp_eval, sp_if_statement, sp_level, sp_more,
    sp_run_assignment, sp_statement, sp_statements, sp_while_statement, take, top_is, with_line,
    FailureView, PState, is_keyword, is_letter, is_number, sp_identifiers, substitute_piece,
    law_declared_variables_start_empty, Substitution, sp_program, substitute, value_text_of,
    law_assignment_stores_value,
};
use crate::string_table::{first_match, pairs_insert};

verus! {

/// The tokens read from `s` on the way to `r`.
pub open spec fn consumed(s: PState, r: PState) -> Seq<TokenView> {
    s.tokens.take(s.tokens.len() - r.tokens.len())
}

/// `r` is reached from `s` by reading tokens from the front only: what is
/// left is a suffix of what there was, the tokens read are kept for the
/// branch of an `if` being read (the then-branch while it is read, the
/// else-branch while it is read under a false condition), and the `if`
/// flags and the grammar are as they were.
pub open spec fn reads_on(s: PState, r: PState) -> bool {
    &&& r.tokens.len() <= s.tokens.len()
    &&& r.tokens == s.tokens.skip(s.tokens.len() - r.tokens.len())
    &&& r.body == (if s.active && !s.else_active {
        s.body + consumed(s, r)
    } else {
        s.body
    })
    &&& r.else_body == (if s.else_active && !s.cond {
        s.else_body + consumed(s, r)
    } else {
        s.else_body
    })
    &&& r.active == s.active
    &&& r.else_active == s.else_active
    &&& r.cond == s.cond
    &&& r.grammar == s.grammar
}

/// `a` is what is left of `b` after some tokens of its front.
pub open spec fn is_suffix(a: Seq<TokenView>, b: Seq<TokenView>) -> bool {
    a.len() <= b.len() && a == b.skip(b.len() - a.len())
}

proof fn lemma_reads_same(s: PState, r: PState)
    requires
        r.tokens == s.tokens,
        r.body == s.body,
        r.else_body == s.else_body,
        r.active == s.active,
        r.else_active == s.else_active,
        r.cond == s.cond,
        r.grammar == s.grammar,
    ensures
        reads_on(s, r),
{
    assert(s.tokens.skip(0) =~= s.tokens);
    assert(s.tokens.take(0) =~= Seq::<TokenView>::empty());
    assert(s.body + Seq::<TokenView>::empty() =~= s.body);
    assert(s.else_body + Seq::<TokenView>::empty() =~= s.else_body);
}

proof fn lemma_reads_trans(a: PState, b: PState, c: PState)
    requires
        reads_on(a, b),
        reads_on(b, c),
    ensures
        reads_on(a, c),
{
    let n1 = a.tokens.len() - b.tokens.len();
    let n2 = b.tokens.len() - c.tokens.len();
    assert(a.tokens.skip(n1).skip(n2) =~= a.tokens.skip(n1 + n2));
    assert(a.tokens.take(n1 + n2) =~= a.tokens.take(n1) + b.tokens.take(n2));
    assert(a.body + a.tokens.take(n1) + b.tokens.take(n2) =~= a.body + a.tokens.take(n1 + n2));
    assert(a.else_body + a.tokens.take(n1) + b.tokens.take(n2) =~= a.else_body + a.tokens.take(
        n1 + n2,
    ));
}

proof fn lemma_reads_take(s: PState)
    requires
        s.tokens.len() > 0,
    ensures
        reads_on(s, take(s)),
        reads_on(s, attach(with_line(s))),
        take(s).tokens.len() == s.tokens.len() - 1,
        attach(with_line(s)).tokens.len() == s.tokens.len() - 1,
{
    let t = s.tokens[0];
    assert(s.tokens.skip(1) =~= s.tokens.drop_first());
    assert(s.tokens.take(1) =~= seq![t]);
    assert(s.body.push(t) =~= s.body + seq![t]);
    assert(s.else_body.push(t) =~= s.else_body + seq![t]);
    assert(s.body + Seq::<TokenView>::empty() =~= s.body);
    assert(s.else_body + Seq::<TokenView>::empty() =~= s.else_body);
}

/// Reading on adds no `if` keyword to what is left to do.
proof fn lemma_reads_measure(s: PState, r: PState)
    requires
        reads_on(s, r),
    ensures
        if_measure(r) <= if_measure(s),
{
    let n = s.tokens.len() - r.tokens.len();
    assert(s.tokens =~= s.tokens.take(n) + r.tokens);
    lemma_count_if_concat(s.tokens.take(n), r.tokens);
    lemma_count_if_concat(s.body, s.tokens.take(n));
    lemma_count_if_concat(s.else_body, s.tokens.take(n));
}

/// Each expression rule only reads tokens from the front and keeps them
/// for the branch being read; one that matches reads at least one token,
/// one that does not match leaves the state as it was.
pub proof fn lemma_level_reads(k: nat, s: PState)
    ensures
        reads_on(s, sp_level(k, s).0),
        sp_level(k, s).1 == Ok::<bool, crate::parse_spec::FailureView>(true) ==> sp_level(k, s).0.tokens.len()
            < s.tokens.len(),
        sp_level(k, s).1 == Ok::<bool, crate::parse_spec::FailureView>(false) ==> sp_level(k, s).0 == s,
        sp_level(k, s).0.symbols == s.symbols,
    decreases s.tokens.len(), k,
{
    lemma_reads_same(s, s);
    if s.tokens.len() > 0 {
        lemma_reads_take(s);
        lemma_reads_same(s, with_line(s));
    }
    if k == 0 {
        if s.tokens.len() > 0 {
            let s1 = attach(with_line(s));
            if s1.tokens.len() < s.tokens.len() {
                lemma_level_reads(6, s1);
                let s2 = sp_level(6, s1).0;
                lemma_reads_trans(s, s1, s2);
                if s2.tokens.len() > 0 {
                    lemma_reads_take(s2);
                    lemma_reads_trans(s, s2, attach(with_line(s2)));
                }
            }
        }
    } else if k == 1 {
        if s.tokens.len() > 0 {
            let s1 = attach(with_line(s));
            lemma_level_reads(0, s1);
            lemma_reads_trans(s, s1, sp_level(0, s1).0);
        }
        lemma_level_reads(0, s);
    } else if k <= 6 {
        lemma_level_reads((k - 1) as nat, s);
        let s1 = sp_level((k - 1) as nat, s).0;
        if s1.tokens.len() < s.tokens.len() {
            lemma_more_reads(k, s1);
            lemma_reads_trans(s, s1, sp_more(k, s1).0);
        }
    }
}

/// The rest of an expression level reads on as the level does.
pub proof fn lemma_more_reads(k: nat, s: PState)
    ensures
        reads_on(s, sp_more(k, s).0),
        sp_more(k, s).1 != Ok::<bool, crate::parse_spec::FailureView>(false),
        sp_more(k, s).0.symbols == s.symbols,
    decreases s.tokens.len(), k,
{
    lemma_reads_same(s, s);
    if 2 <= k <= 6 && s.tokens.len() > 0 && crate::parse_spec::level_op(k, s.tokens[0].value) {
        lemma_reads_take(s);
        let s2 = attach(with_line(s));
        lemma_level_reads((k - 1) as nat, s2);
        let s3 = sp_level((k - 1) as nat, s2).0;
        lemma_reads_trans(s, s2, s3);
        if s3.tokens.len() < s.tokens.len() {
            lemma_more_reads(k, s3);
            lemma_reads_trans(s, s3, sp_more(k, s3).0);
        }
    }
}

/// Evaluating an expression reads no token.
pub proof fn lemma_eval_reads(s: PState)
    ensures
        reads_on(s, sp_eval(s).0),
{
    lemma_reads_same(s, s);
    lemma_reads_same(s, clear_expr(s));
}

/// `( <Expression> )` reads on.
pub proof fn lemma_condition_reads(s: PState)
    ensures
        reads_on(s, sp_condition(s).0),
        sp_condition(s).1 is Ok ==> sp_condition(s).0.tokens.len() < s.tokens.len(),
{
    lemma_reads_same(s, s);
    if top_is(s, "("@) {
        lemma_reads_take(s);
        let s1 = take(s);
        lemma_level_reads(6, s1);
        let s2 = sp_level(6, s1).0;
        lemma_reads_trans(s, s1, s2);
        if s2.tokens.len() > 0 {
            lemma_reads_take(s2);
            lemma_reads_trans(s, s2, take(s2));
        }
    }
}

/// An assignment reads on; running it changes only the symbols and the
/// output.
pub proof fn lemma_assignment_reads(s: PState)
    ensures
        reads_on(s, sp_assignment(s).0),
{
    lemma_reads_same(s, s);
    if !identifier_panics(s) && at_identifier(s) {
        let name = s.tokens[0].value;
        lemma_reads_take(s);
        let s1 = take(s);
        if top_is(s1, "="@) {
            lemma_reads_take(s1);
            let s2 = take(s1);
            lemma_reads_trans(s, s1, s2);
            lemma_level_reads(6, s2);
            let s3 = sp_level(6, s2).0;
            lemma_reads_trans(s, s2, s3);
            lemma_reads_same(s3, clear_expr(s3));
            lemma_eval_reads(s3);
            let e = sp_eval(s3).0;
            lemma_reads_trans(s3, s3, e);
            lemma_reads_same(e, print_table(PState { symbols: pairs_insert(e.symbols, name, seq![]), ..e }));
            assert forall|v: Seq<char>| reads_on(e, print_table(PState { symbols: pairs_insert(e.symbols, name, v), ..e })) by {
                lemma_reads_same(e, print_table(PState { symbols: pairs_insert(e.symbols, name, v), ..e }));
            }
            let (s4, r4) = if s3.active || s3.else_active {
                (clear_expr(s3), Ok::<bool, FailureView>(true))
            } else {
                sp_run_assignment(s3, name)
            };
            assert(reads_on(s3, s4)) by {
                if !(s3.active || s3.else_active) {
                    lemma_reads_same(s3, s3);
                    lemma_reads_trans(s3, e, s4);
                }
            }
            lemma_reads_trans(s, s3, s4);
            if s4.tokens.len() > 0 {
                lemma_reads_take(s4);
                lemma_reads_trans(s, s4, take(s4));
            }
        }
    }
}

/// Reading statements inside the branch of an `if` being run reads on:
/// the tokens read are kept for the branch, none is put back.
pub proof fn lemma_statements_reads(s: PState)
    requires
        s.active,
    ensures
        reads_on(s, sp_statements(s).0),
        sp_statements(s).1 != Ok::<bool, FailureView>(true),
    decreases if_measure(s), s.tokens.len(), 2nat,
{
    lemma_statement_reads(s);
    let s1 = sp_statement(s).0;
    if sp_statement(s).1 == Ok::<bool, FailureView>(true) && below(s1, s) {
        lemma_statements_reads(s1);
        lemma_reads_trans(s, s1, sp_statements(s1).0);
    }
}

/// One statement inside a branch being read reads on.
pub proof fn lemma_statement_reads(s: PState)
    requires
        s.active,
    ensures
        reads_on(s, sp_statement(s).0),
    decreases if_measure(s), s.tokens.len(), 1nat,
{
    lemma_block_reads(s);
    lemma_assignment_reads(s);
    lemma_if_reads(s);
    lemma_while_reads(s);
}

/// A block inside a branch being read reads on.
pub proof fn lemma_block_reads(s: PState)
    requires
        s.active,
    ensures
        reads_on(s, sp_block(s).0),
    decreases if_measure(s), s.tokens.len(), 0nat,
{
    lemma_reads_same(s, s);
    if top_is(s, "{"@) {
        lemma_reads_take(s);
        let s1 = take(s);
        if below(s1, s) {
            lemma_statements_reads(s1);
            let s2 = sp_statements(s1).0;
            lemma_reads_trans(s, s1, s2);
            if s2.tokens.len() > 0 {
                lemma_reads_take(s2);
                lemma_reads_trans(s, s2, take(s2));
            }
        }
    }
}

/// An `if` inside a branch being read reads only its head and reads on.
pub proof fn lemma_if_reads(s: PState)
    requires
        s.active,
    ensures
        reads_on(s, sp_if_statement(s).0),
    decreases if_measure(s), s.tokens.len(), 0nat,
{
    lemma_reads_same(s, s);
    if top_is(s, "if"@) {
        lemma_reads_take(s);
        let s1 = take(s);
        lemma_condition_reads(s1);
        let s4 = sp_condition(s1).0;
        lemma_reads_trans(s, s1, s4);
        lemma_reads_same(s4, clear_expr(s4));
        lemma_reads_trans(s, s4, clear_expr(s4));
    }
}

/// A `while` reads on, in a branch being read or not, when its statement
/// does.
pub proof fn lemma_while_reads(s: PState)
    requires
        s.active,
    ensures
        reads_on(s, sp_while_statement(s).0),
    decreases if_measure(s), s.tokens.len(), 0nat,
{
    lemma_reads_same(s, s);
    if top_is(s, "while"@) {
        lemma_reads_take(s);
        let s1 = take(s);
        lemma_condition_reads(s1);
        let s4 = sp_condition(s1).0;
        lemma_reads_trans(s, s1, s4);
        lemma_eval_reads(s4);
        let s5 = sp_eval(s4).0;
        lemma_reads_trans(s, s4, s5);
        if below(s5, s) {
            lemma_statement_reads(s5);
            lemma_reads_trans(s, s5, sp_statement(s5).0);
        }
    }
}

proof fn lemma_suffix_trans(a: Seq<TokenView>, b: Seq<TokenView>, c: Seq<TokenView>)
    requires
        is_suffix(a, b),
        is_suffix(b, c),
    ensures
        is_suffix(a, c),
{
    assert(c.skip(c.len() - b.len()).skip(b.len() - a.len()) =~= c.skip(c.len() - a.len()));
}

/// An `if` at the top whose condition is false runs nothing of its
/// then-branch: the tokens left to read after it are what followed its
/// then-branch in the program (the else-branch and the rest, to be read
/// and run), a suffix of the tokens before it.
pub proof fn law_false_condition_skips_then_branch(s: PState)
    requires
        !s.active,
        !s.else_active,
        s.else_body.len() == 0,
        top_is(s, "if"@),
        sp_eval(sp_condition(take(s)).0).1 == Ok::<EvalOutcome, FailureView>(
            EvalOutcome::Boolean(false),
        ),
        sp_if_statement(s).1 is Ok,
    ensures
        is_suffix(sp_if_statement(s).0.tokens, s.tokens),
{
    lemma_reads_take(s);
    let s1 = take(s);
    lemma_condition_reads(s1);
    let s4 = sp_condition(s1).0;
    lemma_reads_trans(s, s1, s4);
    lemma_eval_reads(s4);
    let e = sp_eval(s4).0;
    lemma_reads_trans(s, s4, e);
    lemma_reads_measure(s, e);
    let s5 = PState { cond: false, ..e };
    let s6 = PState { output: s5.output + main_body_text(s5), active: true, ..s5 };
    assert(below(s6, s));
    lemma_statement_reads(s6);
    let s7 = sp_statement(s6).0;
    assert(is_suffix(s7.tokens, s6.tokens));
    assert(is_suffix(s6.tokens, s.tokens));
    lemma_suffix_trans(s7.tokens, s6.tokens, s.tokens);
    assert(s7.else_body == s.else_body);
    assert(!s7.else_active && !s7.cond && s7.active);
    if top_is(s7, "else"@) {
        let s8 = skip_top(PState { else_active: true, ..s7 });
        assert(below(s8, s));
        assert(s7.tokens.skip(1) =~= s8.tokens);
        lemma_suffix_trans(s8.tokens, s7.tokens, s.tokens);
        lemma_statement_reads(s8);
        let s9 = sp_statement(s8).0;
        let n = s8.tokens.len() - s9.tokens.len();
        assert(s9.else_body == s8.else_body + s8.tokens.take(n));
        assert(s9.else_body + s9.tokens =~= s8.tokens);
        assert(sp_if_statement(s).0 == sp_execute_if_body(s9));
    } else {
        assert(s7.else_body + s7.tokens =~= s7.tokens);
        assert(sp_if_statement(s).0 == sp_execute_if_body(s7));
    }
}

/// A `while` takes any boolean condition, true or false, and reads its
/// statement; a condition whose value is not a boolean, and only such a
/// one, is an expected-boolean failure.
pub proof fn law_while_accepts_any_boolean(s: PState)
    requires
        top_is(s, "while"@),
        sp_condition(take(s)).1 is Ok,
    ensures
        ({
            let e = sp_eval(sp_condition(take(s)).0);
            &&& (e.1 matches Ok(o) && !(o is Boolean)) ==> sp_while_statement(s) == (
                e.0,
                Err::<bool, FailureView>(
                    FailureView { line: e.0.line, kind: FailureKindView::ExpectedBoolean },
                ),
            )
            &&& (e.1 matches Ok(o) && o is Boolean) && sp_statement(e.0).1 == Ok::<bool, FailureView>(
                true,
            ) ==> sp_while_statement(s) == sp_statement(e.0)
        }),
{
    lemma_reads_take(s);
    let s1 = take(s);
    lemma_condition_reads(s1);
    let s4 = sp_condition(s1).0;
    lemma_reads_trans(s, s1, s4);
    lemma_eval_reads(s4);
    let e = sp_eval(s4).0;
    lemma_reads_trans(s, s4, e);
    lemma_reads_measure(s, e);
    assert(below(e, s));
}

/// An `if` at the top whose condition's value is not a boolean is an
/// expected-boolean failure.
pub proof fn law_if_needs_a_boolean(s: PState)
    requires
        !s.active,
        top_is(s, "if"@),
        sp_condition(take(s)).1 is Ok,
        sp_eval(sp_condition(take(s)).0).1 matches Ok(o) && !(o is Boolean),
    ensures
        sp_if_statement(s).1 == Err::<bool, FailureView>(
            FailureView {
                line: sp_eval(sp_condition(take(s)).0).0.line,
                kind: FailureKindView::ExpectedBoolean,
            },
        ),
{
    lemma_reads_take(s);
    let s1 = take(s);
    lemma_condition_reads(s1);
    let s4 = sp_condition(s1).0;
    lemma_reads_trans(s, s1, s4);
}

/// The next token's value is one of `ops`.
pub open spec fn next_in(s: PState, ops: Seq<Seq<char>>) -> bool {
    s.tokens.len() > 0 && ops.contains(s.tokens[0].value)
}

proof fn lemma_level_continues(k: nat, s: PState)
    requires
        2 <= k <= 6,
        sp_level((k - 1) as nat, s).1 == Ok::<bool, FailureView>(true),
        sp_level((k - 1) as nat, s).0.tokens.len() > 0,
        level_op(k, sp_level((k - 1) as nat, s).0.tokens[0].value),
        sp_level((k - 1) as nat, attach(with_line(sp_level((k - 1) as nat, s).0))).1 == Ok::<
            bool,
            FailureView,
        >(true),
        !(sp_level((k - 1) as nat, attach(with_line(sp_level((k - 1) as nat, s).0))).0.tokens.len()
            > 0 && level_op(
            k,
            sp_level((k - 1) as nat, attach(with_line(sp_level((k - 1) as nat, s).0))).0.tokens[0].value,
        )),
    ensures
        sp_level(k, s) == (sp_level((k - 1) as nat, attach(with_line(sp_level((k - 1) as nat, s).0))).0,
        Ok::<bool, FailureView>(true)),
{
    let j = (k - 1) as nat;
    lemma_level_reads(j, s);
    let s1 = sp_level(j, s).0;
    lemma_reads_take(s1);
    let s2 = attach(with_line(s1));
    lemma_level_reads(j, s2);
    let s3 = sp_level(j, s2).0;
    assert(sp_more(k, s1) == sp_more(k, s3));
    assert(sp_level(k, s) == sp_more(k, s1));
}

/// A term reads each of its operators `*` and `/`: two negations with one of
/// them between make a term that reads all three parts.
pub proof fn law_term_reads_products(s: PState)
    requires
        ({
            let s1 = sp_level(1, s).0;
            let s3 = sp_level(1, attach(with_line(s1))).0;
            &&& sp_level(1, s).1 == Ok::<bool, FailureView>(true)
            &&& s1.tokens.len() > 0
            &&& (s1.tokens[0].value == "*"@ || s1.tokens[0].value == "/"@)
            &&& sp_level(1, attach(with_line(s1))).1 == Ok::<bool, FailureView>(true)
            &&& !(s3.tokens.len() > 0 && (s3.tokens[0].value == "*"@ || s3.tokens[0].value == "/"@))
        }),
    ensures
        sp_level(2, s) == (
            sp_level(1, attach(with_line(sp_level(1, s).0))).0,
            Ok::<bool, FailureView>(true),
        ),
{
    lemma_level_continues(2, s);
}

/// A addition reads each of its operators `+` and `-`: two terms with one of
/// them between make a addition that reads all three parts.
pub proof fn law_addition_reads_sums(s: PState)
    requires
        ({
            let s1 = sp_level(2, s).0;
            let s3 = sp_level(2, attach(with_line(s1))).0;
            &&& sp_level(2, s).1 == Ok::<bool, FailureView>(true)
            &&& s1.tokens.len() > 0
            &&& (s1.tokens[0].value == "+"@ || s1.tokens[0].value == "-"@)
            &&& sp_level(2, attach(with_line(s1))).1 == Ok::<bool, FailureView>(true)
            &&& !(s3.tokens.len() > 0 && (s3.tokens[0].value == "+"@ || s3.tokens[0].value == "-"@))
        }),
    ensures
        sp_level(3, s) == (
            sp_level(2, attach(with_line(sp_level(2, s).0))).0,
            Ok::<bool, FailureView>(true),
        ),
{
    lemma_level_continues(3, s);
}

/// A relation reads each of its operators `>`, `>=`, `==`, `!=`, `<` and `<=`: two additions with one of
/// them between make a relation that reads all three parts.
pub proof fn law_relation_reads_comparisons(s: PState)
    requires
        ({
            let s1 = sp_level(3, s).0;
            let s3 = sp_level(3, attach(with_line(s1))).0;
            &&& sp_level(3, s).1 == Ok::<bool, FailureView>(true)
            &&& s1.tokens.len() > 0
            &&& (s1.tokens[0].value == ">"@ || s1.tokens[0].value == ">="@ || s1.tokens[0].value == "=="@ || s1.tokens[0].value == "!="@ || s1.tokens[0].value == "<"@ || s1.tokens[0].value == "<="@)
            &&& sp_level(3, attach(with_line(s1))).1 == Ok::<bool, FailureView>(true)
            &&& !(s3.tokens.len() > 0 && (s3.tokens[0].value == ">"@ || s3.tokens[0].value == ">="@ || s3.tokens[0].value == "=="@ || s3.tokens[0].value == "!="@ || s3.tokens[0].value == "<"@ || s3.tokens[0].value == "<="@))
        }),
    ensures
        sp_level(4, s) == (
            sp_level(3, attach(with_line(sp_level(3, s).0))).0,
            Ok::<bool, FailureView>(true),
        ),
{
    lemma_level_continues(4, s);
}

/// A conjunction reads each of its operators `&&`: two relations with one of
/// them between make a conjunction that reads all three parts.
pub proof fn law_conjunction_reads_ands(s: PState)
    requires
        ({
            let s1 = sp_level(4, s).0;
            let s3 = sp_level(4, attach(with_line(s1))).0;
            &&& sp_level(4, s).1 == Ok::<bool, FailureView>(true)
            &&& s1.tokens.len() > 0
            &&& (s1.tokens[0].value == "&&"@)
            &&& sp_level(4, attach(with_line(s1))).1 == Ok::<bool, FailureView>(true)
            &&& !(s3.tokens.len() > 0 && (s3.tokens[0].value == "&&"@))
        }),
    ensures
        sp_level(5, s) == (
            sp_level(4, attach(with_line(sp_level(4, s).0))).0,
            Ok::<bool, FailureView>(true),
        ),
{
    lemma_level_continues(5, s);
}

/// A expression reads each of its operators `||`: two conjunctions with one of
/// them between make a expression that reads all three parts.
pub proof fn law_expression_reads_ors(s: PState)
    requires
        ({
            let s1 = sp_level(5, s).0;
            let s3 = sp_level(5, attach(with_line(s1))).0;
            &&& sp_level(5, s).1 == Ok::<bool, FailureView>(true)
            &&& s1.tokens.len() > 0
            &&& (s1.tokens[0].value == "||"@)
            &&& sp_level(5, attach(with_line(s1))).1 == Ok::<bool, FailureView>(true)
            &&& !(s3.tokens.len() > 0 && (s3.tokens[0].value == "||"@))
        }),
    ensures
        sp_level(6, s) == (
            sp_level(5, attach(with_line(sp_level(5, s).0))).0,
            Ok::<bool, FailureView>(true),
        ),
{
    lemma_level_continues(6, s);
}

/// `v` is written as the grammar's identifiers are: not a keyword, a
/// letter, then letters and digits.
pub open spec fn written_as_identifier(g: Map<Seq<char>, Seq<char>>, v: Seq<char>) -> bool {
    &&& !is_keyword(g, v)
    &&& v.len() > 0
    &&& is_letter(g, v[0])
    &&& forall|j: int| 1 <= j < v.len() ==> is_letter(g, #[trigger] v[j]) || is_number(g, v[j])
}

/// A token written as an identifier (a digit after the first letter
/// included) is a factor: it is attached to the expression.
pub proof fn law_identifier_token_is_a_factor(s: PState)
    requires
        s.tokens.len() > 0,
        written_as_identifier(s.grammar, s.tokens[0].value),
    ensures
        sp_level(0, s) == (attach(with_line(s)), Ok::<bool, FailureView>(true)),
{
}

/// A declaration takes a token written as an identifier: unless it fails,
/// the name is entered, with no value, when it was not declared.
pub proof fn law_declaration_reads_identifier(s: PState)
    requires
        s.declaring,
        s.tokens.len() > 0,
        written_as_identifier(s.grammar, s.tokens[0].value),
        first_match(s.symbols, s.tokens[0].value) is None,
    ensures
        sp_identifiers(s).1 is Ok ==> first_match(sp_identifiers(s).0.symbols, s.tokens[0].value)
            == Some(Seq::<char>::empty()),
{
    if sp_identifiers(s).1 is Ok {
        law_declared_variables_start_empty(s, s.tokens[0].value);
    }
}

/// In an expression, a piece written as an identifier that names a
/// variable with a value is replaced by that value.
pub proof fn law_named_variable_is_substituted(s: PState, p: Seq<char>, v: Seq<char>)
    requires
        written_as_identifier(s.grammar, p),
        first_match(s.symbols, p) == Some(v),
        v.len() > 0,
    ensures
        substitute_piece(s, p) == Substitution::Text(v),
{
}

/// An `if` at the top whose condition is true runs its then-branch: the
/// tokens left to read begin with exactly the tokens its then-branch read,
/// and go on with what followed the whole `if` (its else-branch skipped), a
/// suffix of the tokens before it.
pub proof fn law_true_condition_runs_then_branch(s: PState)
    requires
        !s.active,
        !s.else_active,
        s.body.len() == 0,
        top_is(s, "if"@),
        sp_eval(sp_condition(take(s)).0).1 == Ok::<EvalOutcome, FailureView>(
            EvalOutcome::Boolean(true),
        ),
        sp_if_statement(s).1 is Ok,
    ensures
        ({
            let e = sp_eval(sp_condition(take(s)).0).0;
            let s6 = PState {
                output: e.output + main_body_text(PState { cond: true, ..e }),
                active: true,
                cond: true,
                ..e
            };
            let t = consumed(s6, sp_statement(s6).0);
            let r = sp_if_statement(s).0.tokens;
            &&& r.len() >= t.len()
            &&& r.take(t.len() as int) == t
            &&& is_suffix(r.skip(t.len() as int), s.tokens)
        }),
{
    lemma_reads_take(s);
    let s1 = take(s);
    lemma_condition_reads(s1);
    let s4 = sp_condition(s1).0;
    lemma_reads_trans(s, s1, s4);
    lemma_eval_reads(s4);
    let e = sp_eval(s4).0;
    lemma_reads_trans(s, s4, e);
    lemma_reads_measure(s, e);
    let s5 = PState { cond: true, ..e };
    let s6 = PState { output: s5.output + main_body_text(s5), active: true, ..s5 };
    assert(s6 == PState {
        output: e.output + main_body_text(PState { cond: true, ..e }),
        active: true,
        cond: true,
        ..e
    });
    assert(below(s6, s));
    lemma_statement_reads(s6);
    let s7 = sp_statement(s6).0;
    let t = consumed(s6, s7);
    assert(s7.body =~= t);
    assert(is_suffix(s6.tokens, s.tokens));
    lemma_suffix_trans(s7.tokens, s6.tokens, s.tokens);
    if top_is(s7, "else"@) {
        let s8 = skip_top(PState { else_active: true, ..s7 });
        assert(below(s8, s));
        assert(s7.tokens.skip(1) =~= s8.tokens);
        lemma_suffix_trans(s8.tokens, s7.tokens, s.tokens);
        lemma_statement_reads(s8);
        let s9 = sp_statement(s8).0;
        lemma_suffix_trans(s9.tokens, s8.tokens, s.tokens);
        assert(s9.body == t);
        let r = t + s9.tokens;
        assert(r.take(t.len() as int) =~= t);
        assert(r.skip(t.len() as int) =~= s9.tokens);
        assert(sp_if_statement(s).0 == sp_execute_if_body(s9));
    } else {
        let r = t + s7.tokens;
        assert(r.take(t.len() as int) =~= t);
        assert(r.skip(t.len() as int) =~= s7.tokens);
        assert(sp_if_statement(s).0 == sp_execute_if_body(s7));
    }
}

/// A literal is a factor: a token of the grammar's digits, `true` or
/// `false` is attached to the expression.
pub proof fn law_literal_token_is_a_factor(s: PState)
    requires
        s.tokens.len() > 0,
        s.tokens[0].value.len() > 0,
        (forall|j: int|
            0 <= j < s.tokens[0].value.len() ==> is_number(s.grammar, #[trigger] s.tokens[0].value[j]))
            || s.tokens[0].value == "true"@ || s.tokens[0].value == "false"@,
    ensures
        sp_level(0, s) == (attach(with_line(s)), Ok::<bool, FailureView>(true)),
{
}

/// A negation reads `!` and the factor after it.
pub proof fn law_negation_reads_not_and_factor(s: PState)
    requires
        top_is(s, "!"@),
        sp_level(0, attach(with_line(s))).1 == Ok::<bool, FailureView>(true),
    ensures
        sp_level(1, s) == sp_level(0, attach(with_line(s))),
{
}

/// A parenthesized expression is a factor: `(`, an expression, and `)`
/// are read and attached (where the grammar takes `(` for neither a letter
/// nor a digit).
pub proof fn law_parenthesized_expression_is_a_factor(s: PState)
    requires
        s.tokens.len() > 0,
        s.tokens[0].value == "("@,
        !is_letter(s.grammar, '('),
        !is_number(s.grammar, '('),
        sp_level(6, attach(with_line(s))).1 == Ok::<bool, FailureView>(true),
        top_is(sp_level(6, attach(with_line(s))).0, ")"@),
    ensures
        sp_level(0, s) == (
            attach(with_line(sp_level(6, attach(with_line(s))).0)),
            Ok::<bool, FailureView>(true),
        ),
{
    reveal_strlit("(");
    reveal_strlit("true");
    reveal_strlit("false");
    assert(s.tokens[0].value[0] == '(');
    assert(s.tokens[0].value != "true"@);
    assert(s.tokens[0].value != "false"@);
    lemma_reads_take(s);
}

/// A program reads `void main ( ) {` first: one that is read without a
/// failure begins with those five tokens.
pub proof fn law_program_begins_with_main(s: PState)
    requires
        sp_program(s).1 is Ok,
    ensures
        s.tokens.len() >= 5,
        s.tokens[0].value == "void"@,
        s.tokens[1].value == "main"@,
        s.tokens[2].value == "("@,
        s.tokens[3].value == ")"@,
        s.tokens[4].value == "{"@,
{
    let a = skip_top(s);
    let b = skip_top(a);
    let c = skip_top(b);
    let d = skip_top(c);
    assert(a.tokens[0] == s.tokens[1]);
    assert(b.tokens[0] == s.tokens[2]);
    assert(c.tokens[0] == s.tokens[3]);
    assert(d.tokens[0] == s.tokens[4]);
}

/// In an expression, a piece written as an identifier that names no
/// declared variable, or one without a value yet, is an unassigned
/// variable.
pub proof fn law_unassigned_variable_is_reported(s: PState, p: Seq<char>)
    requires
        written_as_identifier(s.grammar, p),
        first_match(s.symbols, p) is None || first_match(s.symbols, p) == Some(Seq::<char>::empty()),
    ensures
        substitute_piece(s, p) == Substitution::Unassigned,
{
}

/// Declaring a name twice is a failure naming it: a declaration whose next
/// token, written as an identifier, is already in the symbol table fails.
pub proof fn law_redeclaration_fails(s: PState)
    requires
        s.declaring,
        s.tokens.len() > 0,
        written_as_identifier(s.grammar, s.tokens[0].value),
        first_match(s.symbols, s.tokens[0].value) is Some,
    ensures
        sp_identifiers(s).1 == Err::<bool, FailureView>(
            FailureView {
                line: s.tokens[0].line,
                kind: FailureKindView::AlreadyDeclared(s.tokens[0].value),
            },
        ),
{
}

/// Substituting the pieces of an expression works piece by piece, in
/// order: the text for two runs of pieces is the text for the first run
/// followed by the text for the second.
pub proof fn law_substitution_keeps_order(s: PState, a: Seq<Seq<char>>, b: Seq<Seq<char>>)
    requires
        substitute(s, a) is Text,
        substitute(s, b) is Text,
    ensures
        substitute(s, a + b) == Substitution::Text(substitute(s, a)->Text_0 + substitute(s, b)->Text_0),
    decreases b.len(),
{
    if b.len() == 0 {
        assert(a + b =~= a);
        assert(substitute(s, a)->Text_0 + substitute(s, b)->Text_0 =~= substitute(s, a)->Text_0);
    } else {
        let p = b.drop_last();
        assert((a + b).drop_last() =~= a + p);
        assert((a + b).last() == b.last());
        assert(substitute(s, p) is Text) by {
            if !(substitute(s, p) is Text) {
                assert(substitute(s, b) == substitute(s, p));
            }
        }
        law_substitution_keeps_order(s, a, p);
        let ta = substitute(s, a)->Text_0;
        let tp = substitute(s, p)->Text_0;
        let x = substitute_piece(s, b.last())->Text_0;
        assert(ta + tp + x =~= ta + (tp + x));
    }
}

/// A successful evaluation empties the expression and reads no token.
pub proof fn law_evaluation_empties_the_expression(s: PState)
    requires
        sp_eval(s).1 is Ok,
    ensures
        sp_eval(s).0.expression.len() == 0,
        sp_eval(s).0.terms.len() == 0,
        sp_eval(s).0.tokens == s.tokens,
        sp_eval(s).0.symbols == s.symbols,
{
}

/// An assignment at the top is run: unless it fails, the assigned name
/// then holds the text of the value its expression evaluated to.
pub proof fn law_assignment_runs_at_top(s: PState)
    requires
        !s.active,
        !s.else_active,
        s.tokens.len() > 0,
        written_as_identifier(s.grammar, s.tokens[0].value),
        sp_assignment(s).1 is Ok,
    ensures
        ({
            let s3 = sp_level(6, take(take(s))).0;
            &&& sp_eval(s3).1 is Ok
            &&& first_match(sp_assignment(s).0.symbols, s.tokens[0].value) == value_text_of(
                sp_eval(s3).1->Ok_0,
            )
        }),
{
    let name = s.tokens[0].value;
    let s1 = take(s);
    let s2 = take(s1);
    lemma_level_reads(6, s2);
    let s3 = sp_level(6, s2).0;
    assert(!s3.active && !s3.else_active) by {
        lemma_reads_take(s);
        lemma_reads_take(s1);
    }
    law_assignment_stores_value(s3, name);
}

/// An assignment inside a branch of an `if` being read is only read and
/// kept, not run: the symbol table is left as it was.
pub proof fn law_assignment_in_branch_is_not_run(s: PState)
    requires
        s.active,
    ensures
        sp_assignment(s).0.symbols == s.symbols,
{
    if !identifier_panics(s) && at_identifier(s) {
        let s1 = take(s);
        if top_is(s1, "="@) {
            let s2 = take(s1);
            lemma_level_reads(6, s2);
            lemma_reads_take(s);
            lemma_reads_take(s1);
        }
    }
}

} // verus!
