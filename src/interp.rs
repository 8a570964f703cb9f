//! The interpreter: statement dispatch, the handlers, and the condition evaluator.
use vstd::prelude::*;
use crate::arith::{blank, eval_arith, is_blank};
use crate::literal::Literals;
use crate::number::{compare, holds, op_of, parse_op, Num};
use crate::text::{
    find_char, first_pos, is_whitespace_char, is_ws, index_value, is_quoted, join_commas, join_range, join_spaces, parse_index,
    quote, quoted, split_char, starts_with, split_on, split_whitespace, split_ws, strip_quotes, str_eq, trim,
    trim_spec, unquote, views,
};
use crate::value::{Store, Value, ValueModel};

verus! {

/// Why a condition could not be evaluated.
#[derive(Debug, PartialEq, Eq)]
pub enum ConditionError {
    /// The condition is not exactly three tokens.
    Syntax,
    /// The operand is a quoted literal, or names a variable that holds text.
    TextOperand(String),
    /// The named variable holds an array.
    ArrayOperand(String),
    /// No variable of that name.
    UnknownVariable(String),
    /// The middle token is no comparison operator.
    UnknownOperator(String),
}

/// The mathematical view of a [`ConditionError`].
pub enum ConditionErrorModel {
    Syntax,
    TextOperand(Seq<char>),
    ArrayOperand(Seq<char>),
    UnknownVariable(Seq<char>),
    UnknownOperator(Seq<char>),
}

impl View for ConditionError {
    type V = ConditionErrorModel;

    open spec fn view(&self) -> ConditionErrorModel {
        match self {
            ConditionError::Syntax => ConditionErrorModel::Syntax,
            ConditionError::TextOperand(s) => ConditionErrorModel::TextOperand(s@),
            ConditionError::ArrayOperand(s) => ConditionErrorModel::ArrayOperand(s@),
            ConditionError::UnknownVariable(s) => ConditionErrorModel::UnknownVariable(s@),
            ConditionError::UnknownOperator(s) => ConditionErrorModel::UnknownOperator(s@),
        }
    }
}

/// The number an operand token stands for: a number literal first; a quoted
/// literal is text, which no comparison takes; else a number variable.
pub open spec fn operand_spec(
    vars: Map<Seq<char>, ValueModel>,
    lits: Literals,
    t: Seq<char>,
) -> Result<u64, ConditionErrorModel> {
    match lits.reading(t) {
        Some(n) => Ok(n.0),
        None => if is_quoted(t) {
            Err(ConditionErrorModel::TextOperand(t))
        } else if !vars.contains_key(t) {
            Err(ConditionErrorModel::UnknownVariable(t))
        } else {
            match vars[t] {
                ValueModel::Number(n) => Ok(n.0),
                ValueModel::Text(_) => Err(ConditionErrorModel::TextOperand(t)),
                _ => Err(ConditionErrorModel::ArrayOperand(t)),
            }
        },
    }
}

/// The value of a condition `<operand> <operator> <operand>`.
pub open spec fn condition_spec(
    vars: Map<Seq<char>, ValueModel>,
    lits: Literals,
    c: Seq<char>,
) -> Result<bool, ConditionErrorModel> {
    let ts = split_ws(c);
    if ts.len() != 3 {
        Err(ConditionErrorModel::Syntax)
    } else {
        match operand_spec(vars, lits, ts[0]) {
            Err(e) => Err(e),
            Ok(l) => match operand_spec(vars, lits, ts[2]) {
                Err(e) => Err(e),
                Ok(r) => match op_of(ts[1]) {
                    None => Err(ConditionErrorModel::UnknownOperator(ts[1])),
                    Some(op) => Ok(holds(op, l, r)),
                },
            },
        }
    }
}

/// The view of a condition's result.
pub open spec fn cond_view(r: Result<bool, ConditionError>) -> Result<bool, ConditionErrorModel> {
    match r {
        Ok(b) => Ok(b),
        Err(e) => Err(e@),
    }
}


/// The statement kinds, for syntax errors.
#[derive(PartialEq, Eq, Structural, Clone, Copy, Debug)]
pub enum Statement {
    Assign,
    Print,
    If,
    While,
    InputNumber,
    InputText,
}

/// A diagnostic: why a statement did nothing.
#[derive(Debug, PartialEq, Eq)]
pub enum Fault {
    /// The line starts with no statement keyword.
    UnknownCommand(String),
    /// The statement's tokens do not have the required shape.
    Syntax(Statement),
    /// A bracketed literal whose elements are neither all numbers nor all quoted.
    ArrayElements,
    /// No variable of that name.
    Undefined(String),
    /// No array variable of that name.
    ArrayUndefined(String),
    /// The index is past the end of the array.
    IndexOutOfRange(usize),
    /// The condition could not be evaluated.
    Condition(ConditionError),
    /// The arithmetic evaluator rejected the expression, with its message.
    Expression(String),
    /// The input line holds no number.
    InvalidNumber,
}

/// The mathematical view of a [`Fault`].
pub enum FaultModel {
    UnknownCommand(Seq<char>),
    Syntax(Statement),
    ArrayElements,
    Undefined(Seq<char>),
    ArrayUndefined(Seq<char>),
    IndexOutOfRange(nat),
    Condition(ConditionErrorModel),
    Expression(Seq<char>),
    InvalidNumber,
}

impl View for Fault {
    type V = FaultModel;

    open spec fn view(&self) -> FaultModel {
        match self {
            Fault::UnknownCommand(s) => FaultModel::UnknownCommand(s@),
            Fault::Syntax(k) => FaultModel::Syntax(*k),
            Fault::ArrayElements => FaultModel::ArrayElements,
            Fault::Undefined(s) => FaultModel::Undefined(s@),
            Fault::ArrayUndefined(s) => FaultModel::ArrayUndefined(s@),
            Fault::IndexOutOfRange(i) => FaultModel::IndexOutOfRange(*i as nat),
            Fault::Condition(e) => FaultModel::Condition(e@),
            Fault::Expression(m) => FaultModel::Expression(m@),
            Fault::InvalidNumber => FaultModel::InvalidNumber,
        }
    }
}

/// What executing one line amounts to. Work that needs the input stream
/// (a line of input, a loop body) is handed back.
#[derive(Debug, PartialEq, Eq)]
pub enum Effect {
    /// End the session.
    Exit,
    /// Nothing to print: a value was stored, or a condition was false.
    Done,
    /// Print this line.
    Output(String),
    /// Report this diagnostic.
    Fault(Fault),
    /// Read a line, and store the number it holds under `name`.
    ReadNumber { name: String },
    /// Read a line, and store its trimmed text under `name`.
    ReadText { name: String },
    /// Capture a body, then replay it while `condition` holds.
    Loop { condition: String },
}

/// The mathematical view of an [`Effect`].
pub enum EffectModel {
    Exit,
    Done,
    Output(Seq<char>),
    Fault(FaultModel),
    ReadNumber { name: Seq<char> },
    ReadText { name: Seq<char> },
    Loop { condition: Seq<char> },
}

impl View for Effect {
    type V = EffectModel;

    open spec fn view(&self) -> EffectModel {
        match self {
            Effect::Exit => EffectModel::Exit,
            Effect::Done => EffectModel::Done,
            Effect::Output(s) => EffectModel::Output(s@),
            Effect::Fault(f) => EffectModel::Fault(f@),
            Effect::ReadNumber { name } => EffectModel::ReadNumber { name: name@ },
            Effect::ReadText { name } => EffectModel::ReadText { name: name@ },
            Effect::Loop { condition } => EffectModel::Loop { condition: condition@ },
        }
    }
}

/// The base name and index of a reference `name[index]`; any other shape is no reference.
pub open spec fn array_ref(s: Seq<char>) -> Option<(Seq<char>, nat)> {
    match (first_pos(s, '['), first_pos(s, ']')) {
        (Some(o), Some(c)) => if o < c {
            match index_value(s.subrange(o + 1, c)) {
                Some(k) => Some((s.take(o), k)),
                None => None,
            }
        } else {
            None
        },
        _ => None,
    }
}

/// The line that printing a value shows.
pub open spec fn render(v: ValueModel) -> Seq<char> {
    match v {
        ValueModel::Number(n) => n.1,
        ValueModel::Text(s) => s,
        ValueModel::NumberArray(ns) => seq!['['] + join_commas(ns.map_values(|n: (u64, Seq<char>)| n.1)) + seq![']'],
        ValueModel::TextArray(ts) => seq!['['] + join_commas(ts.map_values(|t: Seq<char>| quote(t))) + seq![']'],
    }
}

/// What `print-keyword <name>` does, given the statement's tokens.
pub open spec fn print_spec(vars: Map<Seq<char>, ValueModel>, ts: Seq<Seq<char>>) -> EffectModel {
    if ts.len() != 2 {
        EffectModel::Fault(FaultModel::Syntax(Statement::Print))
    } else {
        let name = ts[1];
        match array_ref(name) {
            Some((base, k)) => if !vars.contains_key(base) {
                EffectModel::Fault(FaultModel::ArrayUndefined(base))
            } else {
                match vars[base] {
                    ValueModel::NumberArray(ns) => if k < ns.len() {
                        EffectModel::Output(ns[k as int].1)
                    } else {
                        EffectModel::Fault(FaultModel::IndexOutOfRange(k))
                    },
                    ValueModel::TextArray(xs) => if k < xs.len() {
                        EffectModel::Output(xs[k as int])
                    } else {
                        EffectModel::Fault(FaultModel::IndexOutOfRange(k))
                    },
                    _ => EffectModel::Fault(FaultModel::ArrayUndefined(base)),
                }
            },
            None => if vars.contains_key(name) {
                EffectModel::Output(render(vars[name]))
            } else {
                EffectModel::Fault(FaultModel::Undefined(name))
            },
        }
    }
}

fn append_joined_numbers(out: &mut String, ns: &Vec<Num>)
    ensures
        final(out)@ == old(out)@ + join_commas(ns@.map_values(|n: Num| n@).map_values(|n: (u64, Seq<char>)| n.1)),
{
    let ghost start = out@;
    let ghost items = ns@.map_values(|n: Num| n@).map_values(|n: (u64, Seq<char>)| n.1);
    let mut i: usize = 0;
    while i < ns.len()
        invariant
            i <= ns@.len(),
            items == ns@.map_values(|n: Num| n@).map_values(|n: (u64, Seq<char>)| n.1),
            out@ == start + join_commas(items.take(i as int)),
        decreases ns@.len() - i,
    {
        assert(items.take(i + 1).drop_last() == items.take(i as int));
        let ghost prev = out@;
        if i > 0 {
            out.append(", ");
            proof {
                reveal_strlit(", ");
            }
            assert(out@ == prev + seq![',', ' ']);
        }
        out.append(ns[i].text.as_str());
        proof {
            if i == 0 {
                assert(items.take(1)[0] == ns@[0].text@);
                assert(out@ == start + join_commas(items.take(1)));
            } else {
                assert(items.take(i + 1).last() == ns@[i as int].text@);
                assert(out@ == start + (join_commas(items.take(i as int)) + seq![',', ' '] + items.take(i + 1).last()));
            }
        }
        i = i + 1;
    }
    assert(items.take(ns@.len() as int) == items);
}

fn append_joined_quoted(out: &mut String, xs: &Vec<String>)
    ensures
        final(out)@ == old(out)@ + join_commas(xs@.map_values(|s: String| s@).map_values(|t: Seq<char>| quote(t))),
{
    let ghost start = out@;
    let ghost items = xs@.map_values(|s: String| s@).map_values(|t: Seq<char>| quote(t));
    let mut i: usize = 0;
    while i < xs.len()
        invariant
            i <= xs@.len(),
            items == xs@.map_values(|s: String| s@).map_values(|t: Seq<char>| quote(t)),
            out@ == start + join_commas(items.take(i as int)),
        decreases xs@.len() - i,
    {
        assert(items.take(i + 1).drop_last() == items.take(i as int));
        let ghost prev = out@;
        if i > 0 {
            out.append(", ");
            proof {
                reveal_strlit(", ");
            }
            assert(out@ == prev + seq![',', ' ']);
        }
        let ghost mid = out@;
        out.append("\"");
        out.append(xs[i].as_str());
        out.append("\"");
        proof {
            reveal_strlit("\"");
            assert(out@ == mid + quote(xs@[i as int]@));
            if i == 0 {
                assert(items.take(1)[0] == quote(xs@[0]@));
                assert(out@ == start + join_commas(items.take(1)));
            } else {
                assert(items.take(i + 1).last() == quote(xs@[i as int]@));
                assert(out@ == start + (join_commas(items.take(i as int)) + seq![',', ' '] + items.take(i + 1).last()));
            }
        }
        i = i + 1;
    }
    assert(items.take(xs@.len() as int) == items);
}

/// The textual form of a value: a number's decimal text, a text as it is,
/// an array as its elements between brackets, separated by `", "`.
pub fn render_value(v: &Value) -> (r: String)
    ensures
        r@ == render(v@),
{
    match v {
        Value::Number(n) => n.text.clone(),
        Value::Text(s) => s.clone(),
        Value::NumberArray(ns) => {
            let mut out = String::from_str("[");
            append_joined_numbers(&mut out, ns);
            out.append("]");
            proof {
                reveal_strlit("[");
                reveal_strlit("]");
            }
            out
        },
        Value::TextArray(xs) => {
            let mut out = String::from_str("[");
            append_joined_quoted(&mut out, xs);
            out.append("]");
            proof {
                reveal_strlit("[");
                reveal_strlit("]");
            }
            out
        },
    }
}

/// The characters that stand between names in an arithmetic expression:
/// meval's operators, parentheses and argument separator.
pub open spec fn is_operator_char(c: char) -> bool {
    c == '+' || c == '-' || c == '*' || c == '/' || c == '%' || c == '^' || c == '(' || c == ')'
        || c == ','
}

/// Characters that make up a variable name inside an expression: all but
/// whitespace and the operator characters.
pub open spec fn is_ident(c: char) -> bool {
    !is_ws(c) && !is_operator_char(c)
}

fn ident_char(c: char) -> (r: bool)
    ensures
        r == is_ident(c),
{
    !is_whitespace_char(c) && !(c == '+' || c == '-' || c == '*' || c == '/' || c == '%' || c == '^'
        || c == '(' || c == ')' || c == ',')
}

/// `s` cut into maximal runs of name characters and of other characters.
pub open spec fn runs(s: Seq<char>) -> Seq<Seq<char>>
    decreases s.len(),
{
    if s.len() == 0 {
        Seq::empty()
    } else {
        let p = s.drop_last();
        let c = s.last();
        let t = runs(p);
        if p.len() > 0 && is_ident(p.last()) == is_ident(c) {
            t.update(t.len() - 1, t.last().push(c))
        } else {
            t.push(seq![c])
        }
    }
}

/// A run as it stands after substitution: a name bound to a number becomes the number's text.
pub open spec fn replaced(vars: Map<Seq<char>, ValueModel>, r: Seq<char>) -> Seq<char> {
    if r.len() > 0 && is_ident(r[0]) && vars.contains_key(r) && vars[r] is Number {
        vars[r]->Number_0.1
    } else {
        r
    }
}

/// The runs `rs`, each replaced, put back together.
pub open spec fn replaced_all(vars: Map<Seq<char>, ValueModel>, rs: Seq<Seq<char>>) -> Seq<char>
    decreases rs.len(),
{
    if rs.len() == 0 {
        Seq::empty()
    } else {
        replaced_all(vars, rs.drop_last()) + replaced(vars, rs.last())
    }
}

/// `e` with every whole name of a number variable replaced by that number's text.
pub open spec fn substitute_spec(vars: Map<Seq<char>, ValueModel>, e: Seq<char>) -> Seq<char> {
    replaced_all(vars, runs(e))
}

/// Whether `e` is a bracketed literal: at least two characters, `[` first and `]` last.
pub open spec fn is_bracketed(e: Seq<char>) -> bool {
    e.len() >= 2 && e[0] == '[' && e.last() == ']'
}

/// The elements of a bracketed literal: the text between the brackets cut at
/// each comma, each piece trimmed.
pub open spec fn elements_of(e: Seq<char>) -> Seq<Seq<char>> {
    split_on(e.subrange(1, e.len() - 1), ',').map_values(|x: Seq<char>| trim_spec(x))
}

/// Every element is a number literal.
pub open spec fn all_read(lits: Literals, es: Seq<Seq<char>>) -> bool {
    forall|i: int| 0 <= i < es.len() ==> (#[trigger] lits.reading(es[i])) is Some
}

/// Every element is double-quoted.
pub open spec fn all_quoted(es: Seq<Seq<char>>) -> bool {
    forall|i: int| 0 <= i < es.len() ==> is_quoted(#[trigger] es[i])
}

/// The single-character token `=`.
pub open spec fn equals_token() -> Seq<char> {
    seq!['=']
}

/// What a statement comes to, in terms of the variables before it.
pub enum Outcome {
    /// The variables after the statement, and its effect.
    Fixed(Map<Seq<char>, ValueModel>, EffectModel),
    /// The expression (its number variables already substituted) is handed to
    /// the arithmetic evaluator, whose result goes under the name.
    Evaluated(Seq<char>, Seq<char>),
}

/// Whether `after` and `eff` are what the outcome `o` allows from `before`.
/// After an evaluation either a number was stored under the name and nothing
/// is printed, or nothing changed and the evaluator's error is reported; a
/// blank expression is always such an error.
pub open spec fn outcome_holds(
    o: Outcome,
    before: Map<Seq<char>, ValueModel>,
    after: Map<Seq<char>, ValueModel>,
    eff: EffectModel,
) -> bool {
    match o {
        Outcome::Fixed(m, e) => after == m && eff == e,
        Outcome::Evaluated(name, expr) => {
            let failed = after == before && eff is Fault && eff->Fault_0 is Expression;
            let stored = after.contains_key(name) && after[name] is Number
                && after == before.insert(name, after[name]) && eff == EffectModel::Done;
            (is_blank(expr) ==> failed) && (failed || stored)
        },
    }
}

/// What `assign-keyword <name> = <expr>` does, given the statement's tokens.
pub open spec fn assign_spec(
    vars: Map<Seq<char>, ValueModel>,
    lits: Literals,
    ts: Seq<Seq<char>>,
) -> Outcome {
    if !(ts.len() >= 3 && ts[2] == equals_token()) {
        Outcome::Fixed(vars, EffectModel::Fault(FaultModel::Syntax(Statement::Assign)))
    } else {
        let name = ts[1];
        let e = join_spaces(ts.subrange(3, ts.len() as int));
        if is_bracketed(e) {
            let es = elements_of(e);
            if all_read(lits, es) {
                Outcome::Fixed(
                    vars.insert(name, ValueModel::NumberArray(es.map_values(|x: Seq<char>| lits.reading(x)->Some_0))),
                    EffectModel::Done,
                )
            } else if all_quoted(es) {
                Outcome::Fixed(
                    vars.insert(name, ValueModel::TextArray(es.map_values(|x: Seq<char>| unquote(x)))),
                    EffectModel::Done,
                )
            } else {
                Outcome::Fixed(vars, EffectModel::Fault(FaultModel::ArrayElements))
            }
        } else if is_quoted(e) {
            Outcome::Fixed(vars.insert(name, ValueModel::Text(unquote(e))), EffectModel::Done)
        } else {
            Outcome::Evaluated(name, substitute_spec(vars, e))
        }
    }
}

fn bracketed(e: &str) -> (r: bool)
    ensures
        r == is_bracketed(e@),
{
    let n = e.unicode_len();
    n >= 2 && e.get_char(0) == '[' && e.get_char(n - 1) == ']'
}

fn array_elements(e: &str) -> (r: Vec<String>)
    requires
        is_bracketed(e@),
    ensures
        views(r@) == elements_of(e@),
{
    let n = e.unicode_len();
    let pieces = split_char(e.substring_char(1, n - 1), ',');
    let ghost ps = views(pieces@);
    let mut r: Vec<String> = Vec::new();
    let mut i: usize = 0;
    while i < pieces.len()
        invariant
            i <= pieces@.len(),
            ps == views(pieces@),
            views(r@) == ps.take(i as int).map_values(|x: Seq<char>| trim_spec(x)),
        decreases pieces@.len() - i,
    {
        let t = trim(pieces[i].as_str());
        let ghost before = views(r@);
        r.push(t);
        assert(views(r@) == before.push(t@));
        assert(ps.take(i + 1).map_values(|x: Seq<char>| trim_spec(x)) == ps.take(i as int).map_values(|x: Seq<char>| trim_spec(x)).push(trim_spec(ps[i as int])));
        i = i + 1;
    }
    assert(ps.take(pieces@.len() as int) == ps);
    r
}

fn read_all(lits: &Literals, es: &Vec<String>) -> (r: Option<Vec<Num>>)
    ensures
        match r {
            Some(ns) => all_read(*lits, views(es@))
                && ns@.map_values(|n: Num| n@) == views(es@).map_values(|x: Seq<char>| lits.reading(x)->Some_0),
            None => !all_read(*lits, views(es@)),
        },
{
    let ghost xs = views(es@);
    let mut ns: Vec<Num> = Vec::new();
    let mut i: usize = 0;
    while i < es.len()
        invariant
            i <= es@.len(),
            xs == views(es@),
            all_read(*lits, xs.take(i as int)),
            ns@.map_values(|n: Num| n@) == xs.take(i as int).map_values(|x: Seq<char>| lits.reading(x)->Some_0),
        decreases es@.len() - i,
    {
        match lits.lookup(es[i].as_str()) {
            Some(n) => {
                let ghost before = ns@.map_values(|n: Num| n@);
                ns.push(n);
                assert(ns@.map_values(|n: Num| n@) == before.push(n@));
                assert(xs.take(i + 1).map_values(|x: Seq<char>| lits.reading(x)->Some_0)
                    == xs.take(i as int).map_values(|x: Seq<char>| lits.reading(x)->Some_0).push(lits.reading(xs[i as int])->Some_0));
                assert forall|j: int| 0 <= j < i + 1 implies (#[trigger] lits.reading(xs.take(i + 1)[j])) is Some by {
                    if j < i {
                        assert(xs.take(i + 1)[j] == xs.take(i as int)[j]);
                    }
                }
            },
            None => {
                assert(lits.reading(xs[i as int]) is None);
                return None;
            },
        }
        i = i + 1;
    }
    assert(xs.take(es@.len() as int) == xs);
    Some(ns)
}

fn unquote_all(es: &Vec<String>) -> (r: Option<Vec<String>>)
    ensures
        match r {
            Some(ts) => all_quoted(views(es@)) && views(ts@) == views(es@).map_values(|x: Seq<char>| unquote(x)),
            None => !all_quoted(views(es@)),
        },
{
    let ghost xs = views(es@);
    let mut ts: Vec<String> = Vec::new();
    let mut i: usize = 0;
    while i < es.len()
        invariant
            i <= es@.len(),
            xs == views(es@),
            all_quoted(xs.take(i as int)),
            views(ts@) == xs.take(i as int).map_values(|x: Seq<char>| unquote(x)),
        decreases es@.len() - i,
    {
        if !quoted(es[i].as_str()) {
            assert(!is_quoted(xs[i as int]));
            return None;
        }
        let t = strip_quotes(es[i].as_str());
        let ghost before = views(ts@);
        ts.push(t);
        assert(views(ts@) == before.push(t@));
        assert(xs.take(i + 1).map_values(|x: Seq<char>| unquote(x))
            == xs.take(i as int).map_values(|x: Seq<char>| unquote(x)).push(unquote(xs[i as int])));
        assert forall|j: int| 0 <= j < i + 1 implies is_quoted(#[trigger] xs.take(i + 1)[j]) by {
            if j < i {
                assert(xs.take(i + 1)[j] == xs.take(i as int)[j]);
            }
        }
        i = i + 1;
    }
    assert(xs.take(es@.len() as int) == xs);
    Some(ts)
}

/// The token that precedes the output of a conditional.
pub open spec fn print_token() -> Seq<char> {
    seq!['b', 'o', 'l']
}

/// The token that ends a loop header.
pub open spec fn loop_end_token() -> Seq<char> {
    seq!['o', 'b', 'd', 'h', 'i']
}

/// What a conditional prints when its condition holds: a number literal, a
/// quoted literal, or a variable's value, in that order.
pub open spec fn output_spec(vars: Map<Seq<char>, ValueModel>, lits: Literals, out: Seq<char>) -> EffectModel {
    match lits.reading(out) {
        Some(n) => EffectModel::Output(n.1),
        None => if is_quoted(out) {
            EffectModel::Output(unquote(out))
        } else if vars.contains_key(out) {
            EffectModel::Output(render(vars[out]))
        } else {
            EffectModel::Fault(FaultModel::Undefined(out))
        },
    }
}

/// What `if-keyword <cond...> print-keyword <output>` does, given its tokens.
pub open spec fn if_spec(vars: Map<Seq<char>, ValueModel>, lits: Literals, ts: Seq<Seq<char>>) -> EffectModel {
    if !(ts.len() >= 5 && ts[ts.len() - 2] == print_token()) {
        EffectModel::Fault(FaultModel::Syntax(Statement::If))
    } else {
        match condition_spec(vars, lits, join_spaces(ts.subrange(1, ts.len() - 2))) {
            Err(e) => EffectModel::Fault(FaultModel::Condition(e)),
            Ok(false) => EffectModel::Done,
            Ok(true) => output_spec(vars, lits, ts[ts.len() - 1]),
        }
    }
}

/// What `while-keyword <cond...> obdhi` does, given its tokens.
pub open spec fn while_spec(ts: Seq<Seq<char>>) -> EffectModel {
    if !(ts.len() >= 4 && ts.last() == loop_end_token()) {
        EffectModel::Fault(FaultModel::Syntax(Statement::While))
    } else {
        EffectModel::Loop { condition: join_spaces(ts.subrange(1, ts.len() - 1)) }
    }
}

/// What an input statement of kind `k` does, given its tokens.
pub open spec fn input_spec(k: Statement, ts: Seq<Seq<char>>) -> EffectModel {
    if ts.len() != 2 {
        EffectModel::Fault(FaultModel::Syntax(k))
    } else if k == Statement::InputNumber {
        EffectModel::ReadNumber { name: ts[1] }
    } else {
        EffectModel::ReadText { name: ts[1] }
    }
}

/// Whether `s` starts with `p`.
pub open spec fn has_prefix(s: Seq<char>, p: Seq<char>) -> bool {
    p.len() <= s.len() && s.take(p.len() as int) == p
}

/// The exit keyword.
pub open spec fn kw_exit() -> Seq<char> {
    seq!['g', 'a', 'n', 'd', ' ', 'm', 'a', 'r', 'a']
}

/// The assignment keyword and its space.
pub open spec fn kw_assign() -> Seq<char> {
    seq!['c', 'h', 'o', 'l', ' ']
}

/// The print keyword and its space.
pub open spec fn kw_print() -> Seq<char> {
    seq!['b', 'o', 'l', ' ']
}

/// The conditional keyword and its space.
pub open spec fn kw_if() -> Seq<char> {
    seq!['j', 'o', 'd', 'i', ' ']
}

/// The loop keyword and its space.
pub open spec fn kw_while() -> Seq<char> {
    seq!['j', 'o', 't', 'o', 'k', 'h', 'u', 'n', ' ']
}

/// The number-input keyword and its space.
pub open spec fn kw_input_number() -> Seq<char> {
    seq!['a', 'n', 'k', 'o', ' ']
}

/// The text-input keyword and its space.
pub open spec fn kw_input_text() -> Seq<char> {
    seq!['s', 'h', 'o', 'b', 'd', 'o', ' ']
}

/// What executing one (trimmed) line comes to.
/// The keywords are tested in a fixed order; a line that starts with none is unknown.
pub open spec fn execute_spec(
    vars: Map<Seq<char>, ValueModel>,
    lits: Literals,
    line: Seq<char>,
) -> Outcome {
    let ts = split_ws(line);
    if has_prefix(line, kw_exit()) {
        Outcome::Fixed(vars, EffectModel::Exit)
    } else if has_prefix(line, kw_assign()) {
        assign_spec(vars, lits, ts)
    } else if has_prefix(line, kw_print()) {
        Outcome::Fixed(vars, print_spec(vars, ts))
    } else if has_prefix(line, kw_if()) {
        Outcome::Fixed(vars, if_spec(vars, lits, ts))
    } else if has_prefix(line, kw_while()) {
        Outcome::Fixed(vars, while_spec(ts))
    } else if has_prefix(line, kw_input_number()) {
        Outcome::Fixed(vars, input_spec(Statement::InputNumber, ts))
    } else if has_prefix(line, kw_input_text()) {
        Outcome::Fixed(vars, input_spec(Statement::InputText, ts))
    } else {
        Outcome::Fixed(vars, EffectModel::Fault(FaultModel::UnknownCommand(line)))
    }
}


/// The tokens of a line whose reading as a number its execution may consult:
/// every whitespace token, and the elements of a bracketed literal after the third token.
pub open spec fn candidates_spec(line: Seq<char>) -> Seq<Seq<char>> {
    let ts = split_ws(line);
    let e = join_spaces(ts.subrange(3, ts.len() as int));
    if ts.len() >= 3 && is_bracketed(e) {
        ts + elements_of(e)
    } else {
        ts
    }
}

/// Lists the tokens of `line` that must be looked up in a [`Literals`] table
/// before the line is executed.
pub fn literal_candidates(line: &str) -> (r: Vec<String>)
    ensures
        views(r@) == candidates_spec(line@),
{
    let mut parts = split_whitespace(line);
    let ghost ts = views(parts@);
    if parts.len() >= 3 {
        let e = join_range(&parts, 3, parts.len());
        if bracketed(e.as_str()) {
            let mut elements = array_elements(e.as_str());
            let ghost es = views(elements@);
            parts.append(&mut elements);
            assert(views(parts@) == ts + es);
        }
    }
    parts
}

/// A session: the variable store that its statements read and write.
pub struct Interpreter {
    pub variables: Store,
}

impl Interpreter {
    /// Well-formed store.
    pub open spec fn wf(&self) -> bool {
        self.variables.wf()
    }

    /// The variables, as a map from name to value.
    pub open spec fn vars(&self) -> Map<Seq<char>, ValueModel> {
        self.variables@
    }

    /// A session with no variables.
    pub fn new() -> (r: Interpreter)
        ensures
            r.wf(),
            r.vars() == Map::<Seq<char>, ValueModel>::empty(),
    {
        Interpreter { variables: Store::new() }
    }

    /// Resolves one operand of a condition.
    pub fn evaluate_condition_operand(&self, operand: &str, lits: &Literals) -> (r: Result<u64, ConditionError>)
        requires
            self.wf(),
        ensures
            match r {
                Ok(b) => operand_spec(self.vars(), *lits, operand@) == Ok::<u64, ConditionErrorModel>(b),
                Err(e) => operand_spec(self.vars(), *lits, operand@) == Err::<u64, ConditionErrorModel>(e@),
            },
    {
        if let Some(n) = lits.lookup(operand) {
            return Ok(n.bits);
        }
        if quoted(operand) {
            return Err(ConditionError::TextOperand(String::from_str(operand)));
        }
        match self.variables.get(operand) {
            Some(Value::Number(n)) => Ok(n.bits),
            Some(Value::Text(_)) => Err(ConditionError::TextOperand(String::from_str(operand))),
            Some(Value::NumberArray(_)) => Err(ConditionError::ArrayOperand(String::from_str(operand))),
            Some(Value::TextArray(_)) => Err(ConditionError::ArrayOperand(String::from_str(operand))),
            None => Err(ConditionError::UnknownVariable(String::from_str(operand))),
        }
    }

    /// Evaluates a condition of three tokens: operand, operator, operand.
    pub fn evaluate_condition(&self, condition: &str, lits: &Literals) -> (r: Result<bool, ConditionError>)
        requires
            self.wf(),
        ensures
            cond_view(r) == condition_spec(self.vars(), *lits, condition@),
    {
        let parts = split_whitespace(condition);
        if parts.len() != 3 {
            return Err(ConditionError::Syntax);
        }
        assert(parts@[0]@ == split_ws(condition@)[0]);
        assert(parts@[1]@ == split_ws(condition@)[1]);
        assert(parts@[2]@ == split_ws(condition@)[2]);
        let left = match self.evaluate_condition_operand(parts[0].as_str(), lits) {
            Ok(v) => v,
            Err(e) => return Err(e),
        };
        let right = match self.evaluate_condition_operand(parts[2].as_str(), lits) {
            Ok(v) => v,
            Err(e) => return Err(e),
        };
        match parse_op(parts[1].as_str()) {
            Some(op) => Ok(compare(op, left, right)),
            None => Err(ConditionError::UnknownOperator(parts[1].clone())),
        }
    }
    /// Splits a reference `name[index]` into its base name and index.
    pub fn parse_array_index(&self, var_name: &str) -> (r: Option<(String, usize)>)
        ensures
            match r {
                Some((b, k)) => array_ref(var_name@) == Some((b@, k as nat)),
                None => array_ref(var_name@) is None,
            },
    {
        let open = match find_char(var_name, '[') {
            Some(o) => o,
            None => return None,
        };
        let close = match find_char(var_name, ']') {
            Some(c) => c,
            None => return None,
        };
        if open >= close {
            return None;
        }
        match parse_index(var_name.substring_char(open + 1, close)) {
            Some(k) => Some((String::from_str(var_name.substring_char(0, open)), k)),
            None => None,
        }
    }

    /// The diagnostic for a line that starts with no statement keyword.
    pub fn report_unknown_command(&self, line: &str) -> (r: Effect)
        ensures
            r@ == EffectModel::Fault(FaultModel::UnknownCommand(line@)),
    {
        Effect::Fault(Fault::UnknownCommand(String::from_str(line)))
    }

    /// `print-keyword <name>` or `print-keyword <name>[<index>]`: one line of output or one diagnostic.
    #[verifier::rlimit(30)]
    pub fn parse_print(&self, line: &str) -> (r: Effect)
        requires
            self.wf(),
        ensures
            r@ == print_spec(self.vars(), split_ws(line@)),
    {
        let parts = split_whitespace(line);
        if parts.len() != 2 {
            return Effect::Fault(Fault::Syntax(Statement::Print));
        }
        let var_name = parts[1].as_str();
        assert(var_name@ == split_ws(line@)[1]);
        match self.parse_array_index(var_name) {
            Some((base, idx)) => match self.variables.get(base.as_str()) {
                Some(Value::NumberArray(values)) => {
                    let ghost ns = values@.map_values(|n: Num| n@);
                    assert(self.vars()[base@] == ValueModel::NumberArray(ns));
                    if idx < values.len() {
                        assert(ns[idx as int].1 == values@[idx as int].text@);
                        Effect::Output(values[idx].text.clone())
                    } else {
                        Effect::Fault(Fault::IndexOutOfRange(idx))
                    }
                },
                Some(Value::TextArray(values)) => {
                    let ghost xs = values@.map_values(|t: String| t@);
                    assert(self.vars()[base@] == ValueModel::TextArray(xs));
                    if idx < values.len() {
                        assert(xs[idx as int] == values@[idx as int]@);
                        Effect::Output(values[idx].clone())
                    } else {
                        Effect::Fault(Fault::IndexOutOfRange(idx))
                    }
                },
                _ => Effect::Fault(Fault::ArrayUndefined(base)),
            },
            None => match self.variables.get(var_name) {
                Some(v) => Effect::Output(render_value(v)),
                None => Effect::Fault(Fault::Undefined(String::from_str(var_name))),
            },
        }
    }
    fn replace_run(&self, run: &str) -> (r: String)
        requires
            self.wf(),
        ensures
            r@ == replaced(self.vars(), run@),
    {
        if run.unicode_len() > 0 && ident_char(run.get_char(0)) {
            if let Some(Value::Number(n)) = self.variables.get(run) {
                return n.text.clone();
            }
        }
        String::from_str(run)
    }

    /// Replaces each whole name of a number variable in `expr` by the number's text.
    pub fn substitute_variables(&self, expr: &str) -> (r: String)
        requires
            self.wf(),
        ensures
            r@ == substitute_spec(self.vars(), expr@),
    {
        let n = expr.unicode_len();
        let mut out = String::new();
        if n == 0 {
            return out;
        }
        let ghost mut done: Seq<Seq<char>> = Seq::empty();
        let mut start: usize = 0;
        let mut i: usize = 1;
        let first = expr.get_char(0);
        let mut prev_ident = ident_char(first);
        assert(expr@.take(1) == seq![first]);
        assert(expr@.take(1).drop_last() == Seq::<char>::empty());
        assert(runs(Seq::<char>::empty()) == Seq::<Seq<char>>::empty());
        assert(Seq::<Seq<char>>::empty().push(seq![first]) == seq![seq![first]]);
        assert(runs(expr@.take(1)) == seq![seq![first]]);
        assert(done.push(seq![first]) == seq![seq![first]]);
        assert(expr@.subrange(0, 1) == seq![first]);
        while i < n
            invariant
                n == expr@.len(),
                self.wf(),
                start < i <= n,
                prev_ident == is_ident(expr@[i - 1]),
                runs(expr@.take(i as int)) == done.push(expr@.subrange(start as int, i as int)),
                out@ == replaced_all(self.vars(), done),
            decreases n - i,
        {
            let c = expr.get_char(i);
            let here = ident_char(c);
            assert(expr@.take(i + 1).drop_last() == expr@.take(i as int));
            assert(expr@.take(i + 1).last() == c);
            assert(expr@.take(i as int).last() == expr@[i - 1]);
            if here != prev_ident {
                let run = expr.substring_char(start, i);
                let piece = self.replace_run(run);
                out.append(piece.as_str());
                proof {
                    let nd = done.push(run@);
                    assert(nd.drop_last() == done);
                    done = nd;
                    assert(expr@.subrange(i as int, i + 1) == seq![c]);
                }
                start = i;
            } else {
                assert(expr@.subrange(start as int, i as int).push(c) == expr@.subrange(start as int, i + 1));
            }
            prev_ident = here;
            i = i + 1;
        }
        assert(expr@.take(n as int) == expr@);
        let run = expr.substring_char(start, n);
        let piece = self.replace_run(run);
        out.append(piece.as_str());
        proof {
            let nd = done.push(run@);
            assert(nd.drop_last() == done);
        }
        out
    }
    /// `assign-keyword <name> = <expr>`: stores an array, a text literal, or the
    /// number the expression evaluates to.
    #[verifier::rlimit(40)]
    pub fn parse_let(&mut self, line: &str, lits: &Literals) -> (r: Effect)
        requires
            old(self).wf(),
        ensures
            final(self).wf(),
            outcome_holds(assign_spec(old(self).vars(), *lits, split_ws(line@)), old(self).vars(), final(self).vars(), r@),
    {
        let parts = split_whitespace(line);
        let ghost ts = split_ws(line@);
        let shaped = parts.len() >= 3 && str_eq(parts[2].as_str(), "=");
        proof {
            reveal_strlit("=");
            assert("="@ == equals_token());
            if parts@.len() >= 3 {
                assert(parts@[2]@ == ts[2]);
            }
        }
        if !shaped {
            return Effect::Fault(Fault::Syntax(Statement::Assign));
        }
        assert(parts@[2]@ == ts[2]);
        let var_name = parts[1].clone();
        assert(var_name@ == ts[1]);
        let value_expr = join_range(&parts, 3, parts.len());
        assert(views(parts@).subrange(3, parts@.len() as int) == ts.subrange(3, ts.len() as int));
        let ghost e = value_expr@;
        if bracketed(value_expr.as_str()) {
            let elements = array_elements(value_expr.as_str());
            match read_all(lits, &elements) {
                Some(ns) => {
                    self.variables.insert(var_name, Value::NumberArray(ns));
                    return Effect::Done;
                },
                None => {},
            }
            match unquote_all(&elements) {
                Some(xs) => {
                    self.variables.insert(var_name, Value::TextArray(xs));
                    Effect::Done
                },
                None => Effect::Fault(Fault::ArrayElements),
            }
        } else if quoted(value_expr.as_str()) {
            let text = strip_quotes(value_expr.as_str());
            self.variables.insert(var_name, Value::Text(text));
            Effect::Done
        } else {
            let result = self.evaluate_expression(value_expr.as_str());
            let ghost before = self.vars();
            let ghost name = var_name@;
            match result {
                Ok(n) => {
                    let ghost nv = n@;
                    let r = self.receive_evaluation(var_name, Ok(n));
                    assert(self.vars() == before.insert(name, ValueModel::Number(nv)));
                    r
                },
                Err(m) => self.receive_evaluation(var_name, Err(m)),
            }
        }
    }
    fn output_of(&self, out: &str, lits: &Literals) -> (r: Effect)
        requires
            self.wf(),
        ensures
            r@ == output_spec(self.vars(), *lits, out@),
    {
        if let Some(n) = lits.lookup(out) {
            Effect::Output(n.text)
        } else if quoted(out) {
            Effect::Output(strip_quotes(out))
        } else {
            match self.variables.get(out) {
                Some(v) => Effect::Output(render_value(v)),
                None => Effect::Fault(Fault::Undefined(String::from_str(out))),
            }
        }
    }

    /// `if-keyword <cond...> print-keyword <output>`: prints the output when the condition holds.
    pub fn parse_if(&self, line: &str, lits: &Literals) -> (r: Effect)
        requires
            self.wf(),
        ensures
            r@ == if_spec(self.vars(), *lits, split_ws(line@)),
    {
        let parts = split_whitespace(line);
        let ghost ts = split_ws(line@);
        let n = parts.len();
        let shaped = n >= 5 && str_eq(parts[n - 2].as_str(), "bol");
        proof {
            reveal_strlit("bol");
            assert("bol"@ == print_token());
            if n >= 5 {
                assert(parts@[n - 2]@ == ts[ts.len() - 2]);
            }
        }
        if !shaped {
            return Effect::Fault(Fault::Syntax(Statement::If));
        }
        let condition = join_range(&parts, 1, n - 2);
        assert(views(parts@).subrange(1, n - 2) == ts.subrange(1, ts.len() - 2));
        assert(parts@[n - 1]@ == ts[ts.len() - 1]);
        match self.evaluate_condition(condition.as_str(), lits) {
            Ok(true) => self.output_of(parts[n - 1].as_str(), lits),
            Ok(false) => Effect::Done,
            Err(e) => Effect::Fault(Fault::Condition(e)),
        }
    }

    /// `while-keyword <cond...> obdhi`: hands back the condition; the body is
    /// captured and replayed by a [`crate::looping::Replay`].
    pub fn parse_while(&self, line: &str) -> (r: Effect)
        ensures
            r@ == while_spec(split_ws(line@)),
    {
        let parts = split_whitespace(line);
        let ghost ts = split_ws(line@);
        let n = parts.len();
        let shaped = n >= 4 && str_eq(parts[n - 1].as_str(), "obdhi");
        proof {
            reveal_strlit("obdhi");
            assert("obdhi"@ == loop_end_token());
            if n >= 4 {
                assert(parts@[n - 1]@ == ts.last());
            }
        }
        if !shaped {
            return Effect::Fault(Fault::Syntax(Statement::While));
        }
        let condition = join_range(&parts, 1, n - 1);
        assert(views(parts@).subrange(1, n - 1) == ts.subrange(1, ts.len() - 1));
        Effect::Loop { condition }
    }

    /// `input-number-keyword <name>`: asks for a line that holds a number.
    pub fn parse_input_number(&self, line: &str) -> (r: Effect)
        ensures
            r@ == input_spec(Statement::InputNumber, split_ws(line@)),
    {
        let parts = split_whitespace(line);
        if parts.len() != 2 {
            return Effect::Fault(Fault::Syntax(Statement::InputNumber));
        }
        assert(parts@[1]@ == split_ws(line@)[1]);
        Effect::ReadNumber { name: parts[1].clone() }
    }

    /// `input-text-keyword <name>`: asks for a line of text.
    pub fn parse_input_string(&self, line: &str) -> (r: Effect)
        ensures
            r@ == input_spec(Statement::InputText, split_ws(line@)),
    {
        let parts = split_whitespace(line);
        if parts.len() != 2 {
            return Effect::Fault(Fault::Syntax(Statement::InputText));
        }
        assert(parts@[1]@ == split_ws(line@)[1]);
        Effect::ReadText { name: parts[1].clone() }
    }

    /// Substitutes the number variables into `expr`, then evaluates it with
    /// meval. A blank result of the substitution is an error, not evaluated.
    pub fn evaluate_expression(&self, expr: &str) -> (r: Result<Num, String>)
        requires
            self.wf(),
        ensures
            is_blank(substitute_spec(self.vars(), expr@)) ==> r is Err,
    {
        let substituted = self.substitute_variables(expr);
        if blank(substituted.as_str()) {
            return Err(String::from_str("Parse error: the expression is blank."));
        }
        eval_arith(substituted.as_str())
    }

    /// Completes an assignment with the evaluator's result: a number is stored,
    /// an error is reported and nothing is stored.
    pub fn receive_evaluation(&mut self, name: String, result: Result<Num, String>) -> (r: Effect)
        requires
            old(self).wf(),
        ensures
            final(self).wf(),
            match result {
                Ok(n) => final(self).vars() == old(self).vars().insert(name@, ValueModel::Number(n@))
                    && r@ == EffectModel::Done,
                Err(m) => final(self).vars() == old(self).vars()
                    && r@ == EffectModel::Fault(FaultModel::Expression(m@)),
            },
    {
        match result {
            Ok(n) => {
                self.variables.insert(name, Value::Number(n));
                Effect::Done
            },
            Err(m) => Effect::Fault(Fault::Expression(m)),
        }
    }

    /// Completes a number input with the reading of the input line: a number is
    /// stored, anything else is reported and the earlier binding stays.
    pub fn receive_number(&mut self, name: String, reading: Option<Num>) -> (r: Effect)
        requires
            old(self).wf(),
        ensures
            final(self).wf(),
            match reading {
                Some(n) => final(self).vars() == old(self).vars().insert(name@, ValueModel::Number(n@))
                    && r@ == EffectModel::Done,
                None => final(self).vars() == old(self).vars()
                    && r@ == EffectModel::Fault(FaultModel::InvalidNumber),
            },
    {
        match reading {
            Some(n) => {
                self.variables.insert(name, Value::Number(n));
                Effect::Done
            },
            None => Effect::Fault(Fault::InvalidNumber),
        }
    }

    /// Completes a text input: the line, trimmed, is stored as text.
    pub fn receive_text(&mut self, name: String, input: &str)
        requires
            old(self).wf(),
        ensures
            final(self).wf(),
            final(self).vars() == old(self).vars().insert(name@, ValueModel::Text(trim_spec(input@))),
    {
        let text = trim(input);
        self.variables.insert(name, Value::Text(text));
    }

    /// Executes one trimmed line: the first keyword that the line starts with
    /// picks the handler; a line that starts with none is reported once.
    pub fn execute(&mut self, line: &str, lits: &Literals) -> (r: Effect)
        requires
            old(self).wf(),
        ensures
            final(self).wf(),
            outcome_holds(execute_spec(old(self).vars(), *lits, line@), old(self).vars(), final(self).vars(), r@),
    {
        proof {
            reveal_strlit("gand mara");
            reveal_strlit("chol ");
            reveal_strlit("bol ");
            reveal_strlit("jodi ");
            reveal_strlit("jotokhun ");
            reveal_strlit("anko ");
            reveal_strlit("shobdo ");
            assert("gand mara"@ == kw_exit());
            assert("chol "@ == kw_assign());
            assert("bol "@ == kw_print());
            assert("jodi "@ == kw_if());
            assert("jotokhun "@ == kw_while());
            assert("anko "@ == kw_input_number());
            assert("shobdo "@ == kw_input_text());
        }
        if starts_with(line, "gand mara") {
            Effect::Exit
        } else if starts_with(line, "chol ") {
            self.parse_let(line, lits)
        } else if starts_with(line, "bol ") {
            self.parse_print(line)
        } else if starts_with(line, "jodi ") {
            self.parse_if(line, lits)
        } else if starts_with(line, "jotokhun ") {
            self.parse_while(line)
        } else if starts_with(line, "anko ") {
            self.parse_input_number(line)
        } else if starts_with(line, "shobdo ") {
            self.parse_input_string(line)
        } else {
            self.report_unknown_command(line)
        }
    }
}

} // verus!
