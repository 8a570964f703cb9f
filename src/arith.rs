//! The arithmetic evaluator: meval, reached through one trusted call.
use vstd::prelude::*;
use crate::number::Num;

verus! {

/// Whether a character is one that meval skips as space between tokens.
pub open spec fn is_meval_space(c: char) -> bool {
    c == ' ' || c == '\t' || c == '\r' || c == '\n'
}

/// Whether `s` is non-empty and made only of characters meval skips as space.
pub open spec fn is_blank(s: Seq<char>) -> bool {
    s.len() > 0 && forall|i: int| 0 <= i < s.len() ==> is_meval_space(#[trigger] s[i])
}

/// Tests for a non-empty string of spaces, tabs, carriage returns and line feeds.
pub fn blank(s: &str) -> (r: bool)
    ensures
        r == is_blank(s@),
{
    let n = s.unicode_len();
    if n == 0 {
        return false;
    }
    let mut i: usize = 0;
    while i < n
        invariant
            n == s@.len(),
            i <= n,
            forall|j: int| 0 <= j < i ==> is_meval_space(#[trigger] s@[j]),
        decreases n - i,
    {
        let c = s.get_char(i);
        if !(c == ' ' || c == '\t' || c == '\r' || c == '\n') {
            assert(!is_meval_space(s@[i as int]));
            return false;
        }
        i = i + 1;
    }
    true
}

/// Relies on `meval::eval_str`, which parses the expression and evaluates it
/// with meval's built-in constants and functions. Nothing is promised of the
/// outcome: floating-point functions and the sign of a NaN may differ between
/// platforms and calls. The number is handed back as `f64::to_bits` and its
/// `Display` text, an error as its `Display` message. meval's tokenizer panics
/// on a non-empty string of spaces alone, so such a string is not passed.
#[verifier::external_body]
pub(crate) fn eval_arith(expr: &str) -> (r: Result<Num, String>)
    requires
        !is_blank(expr@),
{
    match meval::eval_str(expr) {
        Ok(v) => Ok(Num { bits: v.to_bits(), text: v.to_string() }),
        Err(e) => Err(e.to_string()),
    }
}

} // verus!
