//! Properties of the statements that hold for all inputs.
use vstd::prelude::*;
use crate::interp::{
    array_ref, is_bracketed, substitute_spec, condition_spec, equals_token, execute_spec, has_prefix, kw_assign, kw_exit, kw_if,
    kw_input_number, kw_input_text, kw_print, kw_while, operand_spec, print_spec, assign_spec,
    Outcome,
    ConditionErrorModel, EffectModel, FaultModel,
};
use crate::literal::Literals;
use crate::text::{is_quoted, join_spaces, split_ws, unquote};
use crate::value::ValueModel;

verus! {

/// Assigning an expression that is neither bracketed nor quoted hands the
/// expression, its number variables substituted, to the evaluator; once a
/// number is stored under the name, printing the name shows exactly that
/// number's decimal text.
pub proof fn lemma_print_after_number(
    vars: Map<Seq<char>, ValueModel>,
    lits: Literals,
    ts: Seq<Seq<char>>,
    ps: Seq<Seq<char>>,
    n: (u64, Seq<char>),
)
    requires
        ts.len() == 4,
        ts[2] == equals_token(),
        !is_bracketed(ts[3]),
        !is_quoted(ts[3]),
        ps.len() == 2,
        ps[1] == ts[1],
        array_ref(ts[1]) is None,
    ensures
        assign_spec(vars, lits, ts) == Outcome::Evaluated(ts[1], substitute_spec(vars, ts[3])),
        print_spec(vars.insert(ts[1], ValueModel::Number(n)), ps) == EffectModel::Output(n.1),
{
    let rest = ts.subrange(3, 4);
    assert(rest.len() == 1 && rest[0] == ts[3]);
    assert(join_spaces(rest) == ts[3]);
}

/// Printing `name[k]` of a number array shows its `k`-th element when `k` is
/// below the length, and reports the index as out of range otherwise.
pub proof fn lemma_indexed_print(
    vars: Map<Seq<char>, ValueModel>,
    ts: Seq<Seq<char>>,
    base: Seq<char>,
    k: nat,
    ns: Seq<(u64, Seq<char>)>,
)
    requires
        ts.len() == 2,
        array_ref(ts[1]) == Some((base, k)),
    ensures
        print_spec(vars.insert(base, ValueModel::NumberArray(ns)), ts) == (if k < ns.len() {
            EffectModel::Output(ns[k as int].1)
        } else {
            EffectModel::Fault(FaultModel::IndexOutOfRange(k))
        }),
{
}

/// A condition whose right operand names a text variable fails with a type
/// mismatch that names it, once the left operand resolves.
pub proof fn lemma_text_operand_mismatch(
    vars: Map<Seq<char>, ValueModel>,
    lits: Literals,
    c: Seq<char>,
)
    requires
        split_ws(c).len() == 3,
        operand_spec(vars, lits, split_ws(c)[0]) is Ok,
        lits.reading(split_ws(c)[2]) is None,
        vars.contains_key(split_ws(c)[2]),
        vars[split_ws(c)[2]] is Text,
    ensures
        condition_spec(vars, lits, c) == Err::<bool, ConditionErrorModel>(
            ConditionErrorModel::TextOperand(split_ws(c)[2]),
        ),
{
}

/// A line that starts with no statement keyword changes nothing and yields
/// exactly one diagnostic, which names the line.
pub proof fn lemma_unknown_reported_once(vars: Map<Seq<char>, ValueModel>, lits: Literals, line: Seq<char>)
    requires
        !has_prefix(line, kw_exit()),
        !has_prefix(line, kw_assign()),
        !has_prefix(line, kw_print()),
        !has_prefix(line, kw_if()),
        !has_prefix(line, kw_while()),
        !has_prefix(line, kw_input_number()),
        !has_prefix(line, kw_input_text()),
    ensures
        execute_spec(vars, lits, line) == Outcome::Fixed(vars, EffectModel::Fault(FaultModel::UnknownCommand(line))),
{
}

/// Assigning a quoted literal stores text whatever the name held before, of
/// any type, and printing the name then shows the text.
pub proof fn lemma_retype_to_text(
    vars: Map<Seq<char>, ValueModel>,
    lits: Literals,
    ts: Seq<Seq<char>>,
    ps: Seq<Seq<char>>,
)
    requires
        ts.len() == 4,
        ts[2] == equals_token(),
        is_quoted(ts[3]),
        ts[3][0] != '[',
        ps.len() == 2,
        ps[1] == ts[1],
        array_ref(ts[1]) is None,
    ensures
        assign_spec(vars, lits, ts) == Outcome::Fixed(
            vars.insert(ts[1], ValueModel::Text(unquote(ts[3]))),
            EffectModel::Done,
        ),
        print_spec(vars.insert(ts[1], ValueModel::Text(unquote(ts[3]))), ps) == EffectModel::Output(unquote(ts[3])),
{
    let rest = ts.subrange(3, 4);
    assert(rest.len() == 1 && rest[0] == ts[3]);
    assert(join_spaces(rest) == ts[3]);
}

} // verus!
