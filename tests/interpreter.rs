use bong::interp::{literal_candidates, render_value};
use bong::{
    Capture, CmpOp, ConditionError, Effect, Fault, Interpreter, Literals, LoopAction, Num, Replay,
    Statement, Value,
};

fn num(x: f64) -> Num {
    Num { bits: x.to_bits(), text: x.to_string() }
}

fn read_num(t: &str) -> Option<Num> {
    t.parse::<f64>().ok().map(num)
}

fn lits_for(line: &str) -> Literals {
    let mut lits = Literals::new();
    for t in literal_candidates(line) {
        if let Some(n) = read_num(&t) {
            lits.add(t, n);
        }
    }
    lits
}

fn run(it: &mut Interpreter, line: &str) -> Effect {
    it.execute(line, &lits_for(line))
}

fn out(s: &str) -> Effect {
    Effect::Output(s.to_string())
}

#[test]
fn float_literal_prints_in_canonical_form() {
    let mut it = Interpreter::new();
    assert_eq!(run(&mut it, "chol x = 3.50"), Effect::Done);
    assert_eq!(run(&mut it, "bol x"), out("3.5"));
    assert_eq!(run(&mut it, "chol y = 2.0"), Effect::Done);
    assert_eq!(run(&mut it, "bol y"), out("2"));
}

#[test]
fn array_index_and_out_of_range() {
    let mut it = Interpreter::new();
    assert_eq!(run(&mut it, "chol a = [1,2,3]"), Effect::Done);
    assert_eq!(run(&mut it, "bol a[1]"), out("2"));
    assert_eq!(run(&mut it, "bol a[5]"), Effect::Fault(Fault::IndexOutOfRange(5)));
    assert_eq!(run(&mut it, "bol a"), out("[1, 2, 3]"));
}

#[test]
fn text_array_and_invalid_elements() {
    let mut it = Interpreter::new();
    assert_eq!(run(&mut it, "chol t = [\"ab\", \"c d\"]"), Effect::Done);
    assert_eq!(run(&mut it, "bol t[1]"), out("c d"));
    assert_eq!(run(&mut it, "bol t"), out("[\"ab\", \"c d\"]"));
    assert_eq!(run(&mut it, "chol m = [1, \"x\"]"), Effect::Fault(Fault::ArrayElements));
    assert_eq!(run(&mut it, "bol m"), Effect::Fault(Fault::Undefined("m".to_string())));
    assert_eq!(run(&mut it, "chol e = []"), Effect::Fault(Fault::ArrayElements));
}

#[test]
fn print_undefined_and_not_array() {
    let mut it = Interpreter::new();
    assert_eq!(run(&mut it, "bol q"), Effect::Fault(Fault::Undefined("q".to_string())));
    assert_eq!(run(&mut it, "bol q[0]"), Effect::Fault(Fault::ArrayUndefined("q".to_string())));
    run(&mut it, "chol n = 4");
    assert_eq!(run(&mut it, "bol n[0]"), Effect::Fault(Fault::ArrayUndefined("n".to_string())));
    assert_eq!(run(&mut it, "bol n[x]"), Effect::Fault(Fault::Undefined("n[x]".to_string())));
    assert_eq!(run(&mut it, "bol"), Effect::Fault(Fault::UnknownCommand("bol".to_string())));
    assert_eq!(run(&mut it, "bol a b"), Effect::Fault(Fault::Syntax(Statement::Print)));
}

#[test]
fn condition_true_and_type_mismatch() {
    let mut it = Interpreter::new();
    assert_eq!(it.evaluate_condition("5 > 3", &lits_for("5 > 3")), Ok(true));
    assert_eq!(it.evaluate_condition("3 > 5", &lits_for("3 > 5")), Ok(false));
    run(&mut it, "chol x = \"x\"");
    assert_eq!(
        it.evaluate_condition("5 > x", &lits_for("5 > x")),
        Err(ConditionError::TextOperand("x".to_string()))
    );
    assert_eq!(
        it.evaluate_condition("5 > \"x\"", &lits_for("5 > \"x\"")),
        Err(ConditionError::TextOperand("\"x\"".to_string()))
    );
}

#[test]
fn condition_errors() {
    let mut it = Interpreter::new();
    assert_eq!(it.evaluate_condition("5 >", &lits_for("5 >")), Err(ConditionError::Syntax));
    assert_eq!(
        it.evaluate_condition("5 <> 3", &lits_for("5 <> 3")),
        Err(ConditionError::UnknownOperator("<>".to_string()))
    );
    assert_eq!(
        it.evaluate_condition("z == 3", &lits_for("z == 3")),
        Err(ConditionError::UnknownVariable("z".to_string()))
    );
    run(&mut it, "chol a = [1]");
    assert_eq!(
        it.evaluate_condition("a == 3", &lits_for("a == 3")),
        Err(ConditionError::ArrayOperand("a".to_string()))
    );
}

#[test]
fn comparisons_follow_ieee() {
    let z = 0.0f64.to_bits();
    let nz = (-0.0f64).to_bits();
    let nan = f64::NAN.to_bits();
    let one = 1.0f64.to_bits();
    let m = (-2.5f64).to_bits();
    assert!(bong::number::compare(CmpOp::Eq, z, nz));
    assert!(!bong::number::compare(CmpOp::Eq, nan, nan));
    assert!(bong::number::compare(CmpOp::Ne, nan, nan));
    assert!(!bong::number::compare(CmpOp::Le, nan, one));
    assert!(bong::number::compare(CmpOp::Lt, m, z));
    assert!(bong::number::compare(CmpOp::Gt, f64::INFINITY.to_bits(), one));
    assert!(bong::number::compare(CmpOp::Ge, one, one));
    assert!(bong::number::compare(CmpOp::Lt, f64::NEG_INFINITY.to_bits(), m));
}

#[test]
fn while_loop_runs_body_three_times() {
    let mut it = Interpreter::new();
    run(&mut it, "chol i = 0");
    let condition = match run(&mut it, "jotokhun i < 3 obdhi") {
        Effect::Loop { condition } => condition,
        other => panic!("unexpected {:?}", other),
    };
    assert_eq!(condition, "i < 3");
    let mut capture = Capture::new();
    assert!(!capture.feed("  chol i = i + 1\n"));
    assert!(capture.feed("\n"));
    let cond_lits = lits_for(&condition);
    let mut replay = Replay::new(capture.into_body());
    let mut action = replay.on_condition(&it.evaluate_condition(&condition, &cond_lits));
    let mut runs = 0;
    loop {
        match action {
            LoopAction::Run(line) => {
                assert_eq!(line, "chol i = i + 1");
                runs += 1;
                assert_eq!(run(&mut it, &line), Effect::Done);
                action = replay.on_line_done();
            }
            LoopAction::CheckCondition => {
                action = replay.on_condition(&it.evaluate_condition(&condition, &cond_lits));
            }
            LoopAction::Finish => break,
        }
    }
    assert_eq!(runs, 3);
    assert_eq!(run(&mut it, "bol i"), out("3"));
}

#[test]
fn failed_condition_ends_loop() {
    let it = Interpreter::new();
    let mut replay = Replay::new(vec!["bol x".to_string()]);
    let r = it.evaluate_condition("k < 3", &lits_for("k < 3"));
    assert_eq!(replay.on_condition(&r), LoopAction::Finish);
}

#[test]
fn unknown_command_reported_once() {
    let mut it = Interpreter::new();
    let e = run(&mut it, "foo bar");
    assert_eq!(e, Effect::Fault(Fault::UnknownCommand("foo bar".to_string())));
    assert_eq!(run(&mut it, "cholx = 1"), Effect::Fault(Fault::UnknownCommand("cholx = 1".to_string())));
}

#[test]
fn reassign_number_to_text() {
    let mut it = Interpreter::new();
    assert_eq!(run(&mut it, "chol x = 1"), Effect::Done);
    assert_eq!(run(&mut it, "chol x = \"hi\""), Effect::Done);
    assert_eq!(run(&mut it, "bol x"), out("hi"));
}

#[test]
fn substitution_before_evaluation() {
    let mut it = Interpreter::new();
    run(&mut it, "chol x = 2");
    assert_eq!(it.substitute_variables("x * 3"), "2 * 3");
    assert_eq!(it.evaluate_expression("x * 3"), Ok(num(6.0)));
    assert_eq!(run(&mut it, "chol y = x * 3"), Effect::Done);
    assert_eq!(run(&mut it, "bol y"), out("6"));
}

#[test]
fn substitution_replaces_whole_names_only() {
    let mut it = Interpreter::new();
    run(&mut it, "chol x = 2");
    run(&mut it, "chol s = \"t\"");
    assert_eq!(it.substitute_variables("xx + x*(x1) + s"), "xx + 2*(x1) + s");
    assert_eq!(it.substitute_variables(""), "");
}

#[test]
fn expression_error_stores_nothing() {
    let mut it = Interpreter::new();
    match run(&mut it, "chol z = 1 +") {
        Effect::Fault(Fault::Expression(m)) => assert!(!m.is_empty()),
        other => panic!("unexpected {:?}", other),
    }
    assert_eq!(run(&mut it, "bol z"), Effect::Fault(Fault::Undefined("z".to_string())));
}

#[test]
fn if_statement_outputs() {
    let mut it = Interpreter::new();
    run(&mut it, "chol v = \"yes\"");
    assert_eq!(run(&mut it, "jodi 2 > 1 bol 7.0"), out("7"));
    assert_eq!(run(&mut it, "jodi 2 > 1 bol \"ok\""), out("ok"));
    assert_eq!(run(&mut it, "jodi 2 > 1 bol v"), out("yes"));
    assert_eq!(run(&mut it, "jodi 2 > 1 bol w"), Effect::Fault(Fault::Undefined("w".to_string())));
    assert_eq!(run(&mut it, "jodi 2 < 1 bol v"), Effect::Done);
    assert_eq!(
        run(&mut it, "jodi 2 ? 1 bol v"),
        Effect::Fault(Fault::Condition(ConditionError::UnknownOperator("?".to_string())))
    );
    assert_eq!(run(&mut it, "jodi 2 > 1 v"), Effect::Fault(Fault::Syntax(Statement::If)));
}

#[test]
fn statement_syntax_errors() {
    let mut it = Interpreter::new();
    assert_eq!(run(&mut it, "chol x 1"), Effect::Fault(Fault::Syntax(Statement::Assign)));
    assert_eq!(run(&mut it, "jotokhun i < 3"), Effect::Fault(Fault::Syntax(Statement::While)));
    assert_eq!(run(&mut it, "anko a b"), Effect::Fault(Fault::Syntax(Statement::InputNumber)));
    assert_eq!(run(&mut it, "shobdo a b"), Effect::Fault(Fault::Syntax(Statement::InputText)));
}

#[test]
fn exit_keyword() {
    let mut it = Interpreter::new();
    assert_eq!(run(&mut it, "gand mara"), Effect::Exit);
}

#[test]
fn input_statements() {
    let mut it = Interpreter::new();
    assert_eq!(run(&mut it, "anko n"), Effect::ReadNumber { name: "n".to_string() });
    assert_eq!(it.receive_number("n".to_string(), read_num("12.5")), Effect::Done);
    assert_eq!(run(&mut it, "bol n"), out("12.5"));
    assert_eq!(it.receive_number("n".to_string(), read_num("abc")), Effect::Fault(Fault::InvalidNumber));
    assert_eq!(run(&mut it, "bol n"), out("12.5"));
    assert_eq!(run(&mut it, "shobdo s"), Effect::ReadText { name: "s".to_string() });
    it.receive_text("s".to_string(), "  hello world \n");
    assert_eq!(run(&mut it, "bol s"), out("hello world"));
}

#[test]
fn text_helpers() {
    assert_eq!(bong::text::split_whitespace("  a\tbc  d\n"), vec!["a", "bc", "d"]);
    assert!(bong::text::split_whitespace("   ").is_empty());
    assert_eq!(bong::text::trim("\u{3000} x y \t"), "x y");
    assert_eq!(bong::text::split_char("1,,2", ','), vec!["1", "", "2"]);
    assert_eq!(bong::text::parse_index("+12"), Some(12));
    assert_eq!(bong::text::parse_index("-1"), None);
    assert_eq!(bong::text::parse_index("99999999999999999999999"), None);
    assert_eq!(Interpreter::new().parse_array_index("ab[3]"), Some(("ab".to_string(), 3)));
    assert_eq!(Interpreter::new().parse_array_index("ab]3["), None);
}

#[test]
fn render_values() {
    assert_eq!(render_value(&Value::Number(num(1.5))), "1.5");
    assert_eq!(render_value(&Value::NumberArray(vec![])), "[]");
    assert_eq!(render_value(&Value::TextArray(vec!["a".to_string()])), "[\"a\"]");
}

#[test]
fn literal_table_keeps_first_reading() {
    let mut lits = Literals::new();
    lits.add("x".to_string(), num(1.0));
    lits.add("x".to_string(), num(2.0));
    assert_eq!(lits.lookup("x"), Some(num(1.0)));
    assert_eq!(lits.lookup("y"), None);
    assert_eq!(literal_candidates("chol a = [1, 2]"), vec!["chol", "a", "=", "[1,", "2]", "1", "2"]);
}

#[test]
fn evaluation_uses_meval() {
    let it = Interpreter::new();
    assert_eq!(it.evaluate_expression("(1 + 2) / 4"), Ok(num(0.75)));
    assert!(it.evaluate_expression("1 +").is_err());
}

#[test]
fn receive_evaluation_stores_or_reports() {
    let mut it = Interpreter::new();
    assert_eq!(it.receive_evaluation("k".to_string(), Ok(num(-1.5))), Effect::Done);
    assert_eq!(run(&mut it, "bol k"), out("-1.5"));
    assert_eq!(
        it.receive_evaluation("k".to_string(), Err("bad".to_string())),
        Effect::Fault(Fault::Expression("bad".to_string()))
    );
    assert_eq!(run(&mut it, "bol k"), out("-1.5"));
}

#[test]
fn blank_expression_is_an_error() {
    let mut it = Interpreter::new();
    assert!(it.evaluate_expression(" \t ").is_err());
    assert_eq!(
        it.receive_evaluation("b".to_string(), Ok(Num { bits: 0, text: " ".to_string() })),
        Effect::Done
    );
    assert!(it.evaluate_expression("b").is_err());
    match run(&mut it, "chol c = b") {
        Effect::Fault(Fault::Expression(m)) => assert!(!m.is_empty()),
        other => panic!("unexpected {:?}", other),
    }
    assert_eq!(run(&mut it, "bol c"), Effect::Fault(Fault::Undefined("c".to_string())));
}

#[test]
fn non_ascii_names_are_substituted() {
    let mut it = Interpreter::new();
    assert_eq!(run(&mut it, "chol দাম = 5"), Effect::Done);
    assert_eq!(run(&mut it, "chol y = দাম + 1"), Effect::Done);
    assert_eq!(run(&mut it, "bol y"), out("6"));
}
