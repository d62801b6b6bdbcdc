//! Evaluation of expression text, which the `evalexpr` crate performs.
use vstd::prelude::*;

use crate::text::has_piece;

verus! {

/// What evaluating an expression text gives, as far as the interpreter
/// tells the outcomes apart.
#[derive(Debug, Clone, Copy, PartialEq, Eq, Structural)]
pub enum EvalOutcome {
    Int(i64),
    Boolean(bool),
    OtherValue,
    Failed,
}

/// The outcome of `evalexpr::eval` on an expression text.
pub uninterp spec fn evalexpr_outcome(expression: Seq<char>) -> EvalOutcome;

/// `t` names one of evalexpr's shift functions, `shl` or `shr`.
pub open spec fn names_shift(t: Seq<char>) -> bool {
    has_piece(t, "shl"@) || has_piece(t, "shr"@)
}

/// `t` holds no letter `h`.
pub open spec fn h_free(t: Seq<char>) -> bool {
    forall|i: int| 0 <= i < t.len() ==> #[trigger] t[i] != 'h'
}

/// A text without the letter `h` names no shift function.
pub proof fn lemma_h_free_names_no_shift(t: Seq<char>)
    requires
        h_free(t),
    ensures
        !names_shift(t),
{
    reveal_strlit("shl");
    reveal_strlit("shr");
    if has_piece(t, "shl"@) {
        let i = choose|i: int|
            0 <= i && i + "shl"@.len() <= t.len() && #[trigger] t.subrange(i, i + "shl"@.len())
                == "shl"@;
        assert(t.subrange(i, i + 3)[1] == t[i + 1]);
    }
    if has_piece(t, "shr"@) {
        let i = choose|i: int|
            0 <= i && i + "shr"@.len() <= t.len() && #[trigger] t.subrange(i, i + "shr"@.len())
                == "shr"@;
        assert(t.subrange(i, i + 3)[1] == t[i + 1]);
    }
}

/// Evaluates `expression` with `evalexpr::eval`, which binds no variables:
/// an integer or a boolean value comes back as such, a string, float, tuple
/// or empty value as `OtherValue`, an error as `Failed`. The contract claims
/// only that the outcome depends on the text alone; which outcome a text
/// has is evalexpr's grammar and arithmetic, and is left unstated. The
/// text names neither `shl` nor `shr`, the built-in functions that panic on
/// a shift of 64 or more or a negative one; evalexpr's integer arithmetic
/// is checked (an overflow or a division by zero is an error, not a panic).
#[verifier::external_body]
pub(crate) fn eval_text(expression: &String) -> (r: EvalOutcome)
    requires
        !names_shift(expression@),
    ensures
        r == evalexpr_outcome(expression@),
{
    match evalexpr::eval(expression.as_str()) {
        Ok(evalexpr::Value::Int(v)) => EvalOutcome::Int(v),
        Ok(evalexpr::Value::Boolean(b)) => EvalOutcome::Boolean(b),
        Ok(evalexpr::Value::String(_)) => EvalOutcome::OtherValue,
        Ok(evalexpr::Value::Float(_)) => EvalOutcome::OtherValue,
        Ok(evalexpr::Value::Tuple(_)) => EvalOutcome::OtherValue,
        Ok(evalexpr::Value::Empty) => EvalOutcome::OtherValue,
        Err(_) => EvalOutcome::Failed,
    }
}

} // verus!
