//! End-to-end tests: programs parsed from source text and executed
//! against a recording host.

use snask::errors::{InterpretResult, RuntimeError};
use snask::host::RecordingHost;
use snask::interpreter::Interpreter;
use snask::parser::parse_program;
use snask::value::Value;

fn run(source: &str) -> (InterpretResult, Vec<String>) {
    run_with_inputs(source, &[])
}

fn run_with_inputs(source: &str, inputs: &[&str]) -> (InterpretResult, Vec<String>) {
    let program = parse_program(source).expect("the test program should parse");
    let mut host = RecordingHost::new();
    for line in inputs {
        host.push_input(line.to_string());
    }
    let mut interp = Interpreter::new();
    let result = interp.interpret(&mut host, &program);
    (result, host.lines)
}

fn expect_lines(source: &str, lines: &[&str]) {
    let (result, printed) = run(source);
    assert!(matches!(result, InterpretResult::Finished), "program failed unexpectedly");
    let got: Vec<&str> = printed.iter().map(|s| s.as_str()).collect();
    assert_eq!(got, lines);
}

fn expect_error(source: &str) -> RuntimeError {
    let (result, _) = run(source);
    match result {
        InterpretResult::RuntimeError(e) => e,
        InterpretResult::Finished => panic!("program finished but an error was expected"),
    }
}

#[test]
fn one_plus_one_is_two() {
    expect_lines("print 1 + 1", &["2"]);
}

#[test]
fn string_concatenation() {
    expect_lines("print \"a\" + \"b\"", &["ab"]);
}

#[test]
fn string_coercing_addition() {
    expect_lines("print \"x=\" + 5", &["x=5"]);
    expect_lines("print 5 + \"=x\"", &["5=x"]);
}

#[test]
fn divide_by_zero_is_a_distinct_failure() {
    let e = expect_error("print 5 / 0");
    assert!(matches!(e, RuntimeError::DivisionByZero));
}

#[test]
fn division_truncates_towards_zero() {
    expect_lines("print 7 / 2", &["3"]);
    expect_lines("print 0 - 7 / 2", &["-3"]);
}

#[test]
fn const_reassignment_fails() {
    let e = expect_error("const c = 1 c = 2");
    match e {
        RuntimeError::NotReassignable { name } => assert_eq!(name, "c"),
        other => panic!("expected the not-reassignable failure, got {}", describe(&other)),
    }
}

#[test]
fn mutable_reassignment_succeeds() {
    expect_lines("mut m = 1 m = 2 print m", &["2"]);
}

#[test]
fn immutable_declaration_also_refuses_reassignment() {
    let e = expect_error("let v = 1 v = 2");
    assert!(matches!(e, RuntimeError::NotReassignable { .. }));
}

#[test]
fn function_returns_its_sum() {
    expect_lines("fn add(a, b) { return a + b } print add(2, 3)", &["5"]);
}

#[test]
fn arity_mismatch_fails_before_the_body() {
    let e = expect_error("fn add(a, b) { return a + b } print add(2, 3, 4)");
    match e {
        RuntimeError::ArityMismatch { name, expected, found } => {
            assert_eq!(name, "add");
            assert_eq!(expected, 2);
            assert_eq!(found, 3);
        },
        other => panic!("expected the arity failure, got {}", describe(&other)),
    }
}

#[test]
fn while_false_runs_zero_iterations() {
    expect_lines("mut x = 1 while false { x = 99 } print x", &["1"]);
}

#[test]
fn loop_local_does_not_leak_past_the_loop() {
    let e = expect_error("mut i = 0 while i < 1 { let t = 5 i = i + 1 } print t");
    match e {
        RuntimeError::UnboundVariable { name } => assert_eq!(name, "t"),
        other => panic!("expected the unbound-name failure, got {}", describe(&other)),
    }
}

#[test]
fn while_loop_counts() {
    expect_lines("mut i = 0 while i < 3 { i = i + 1 } print i", &["3"]);
}

#[test]
fn function_cannot_read_loop_locals() {
    let e = expect_error(
        "fn f() { return secret } mut i = 0 while i < 1 { let secret = 42 let r = f() i = i + 1 }",
    );
    match e {
        RuntimeError::UnboundVariable { name } => assert_eq!(name, "secret"),
        other => panic!("expected the unbound-name failure, got {}", describe(&other)),
    }
}

#[test]
fn function_can_read_globals() {
    expect_lines("let g = 10 fn f() { return g + 1 } print f()", &["11"]);
}

#[test]
fn out_of_bounds_index_names_size_and_index() {
    let e = expect_error("let l = [1, 2, 3] print l[5]");
    match e {
        RuntimeError::IndexOutOfBounds { len, index } => {
            assert_eq!(len, 3);
            assert_eq!(index, 5);
        },
        other => panic!("expected the out-of-bounds failure, got {}", describe(&other)),
    }
}

#[test]
fn missing_dict_key_names_the_key() {
    let e = expect_error("let d = {\"a\": 1} print d[\"b\"]");
    match e {
        RuntimeError::KeyNotFound { key } => match key {
            Value::Str(s) => assert_eq!(s, "b"),
            _ => panic!("the failure should carry the missing key"),
        },
        other => panic!("expected the missing-key failure, got {}", describe(&other)),
    }
}

#[test]
fn non_numeric_index_names_size_and_index() {
    let e = expect_error("let l = [1, 2, 3] print l[\"x\"]");
    match e {
        RuntimeError::ListIndexNotNumber { len, index } => {
            assert_eq!(len, 3);
            assert!(matches!(index, Value::Str(s) if s == "x"));
        },
        other => panic!("expected the non-numeric-index failure, got {}", describe(&other)),
    }
}

#[test]
fn indexing_a_number_names_the_target() {
    let e = expect_error("let n = 7 print n[0]");
    match e {
        RuntimeError::NotIndexable { target } => {
            assert!(matches!(target, Value::Number(7)));
        },
        other => panic!("expected the not-indexable failure, got {}", describe(&other)),
    }
}

#[test]
fn list_indexing_in_bounds() {
    expect_lines("let l = [10, 20, 30] print l[0] + l[2]", &["40"]);
}

#[test]
fn a_failing_list_element_fails_the_literal() {
    let e = expect_error("let l = [missing_element]");
    assert!(matches!(e, RuntimeError::UnboundVariable { .. }));
}

#[test]
fn a_failing_dict_key_fails_the_literal() {
    let e = expect_error("let d = {missing_key: 1}");
    assert!(matches!(e, RuntimeError::UnboundVariable { .. }));
}

#[test]
fn list_push_mutates_in_place() {
    expect_lines("mut l = [] l.push(4) l.push(5) print l", &["[4, 5]"]);
}

#[test]
fn dict_set_then_lookup() {
    expect_lines("mut d = {} d.set(\"k\", 7) print d[\"k\"]", &["7"]);
}

#[test]
fn dict_set_replaces_an_equal_key() {
    expect_lines("mut d = {\"k\": 1} d.set(\"k\", 2) print d[\"k\"]", &["2"]);
}

#[test]
fn collection_method_on_a_complex_target_fails() {
    let e = expect_error("fn g() { return [1] } g().push(2)");
    assert!(matches!(e, RuntimeError::ComplexMethodTarget));
}

#[test]
fn unknown_method_fails_by_name() {
    let e = expect_error("mut l = [1] l.shove(2)");
    match e {
        RuntimeError::UnknownMethod { property } => assert_eq!(property, "shove"),
        other => panic!("expected the unknown-method failure, got {}", describe(&other)),
    }
}

#[test]
fn structural_equality_over_lists() {
    expect_lines("print [1, 2] == [1, 2]", &["true"]);
    expect_lines("print [1, 2] == [2, 1]", &["false"]);
}

#[test]
fn dict_equality_ignores_entry_order() {
    expect_lines(
        "print {\"a\": 1, \"b\": 2} == {\"b\": 2, \"a\": 1}",
        &["true"],
    );
}

#[test]
fn equality_over_mixed_kinds_never_fails() {
    expect_lines("print 1 == \"1\"", &["false"]);
    expect_lines("fn nilish() { return 0 } print nilish() != 4", &["true"]);
}

#[test]
fn conditionals_pick_the_first_true_branch() {
    expect_lines(
        "let x = 5 if x > 9 { print \"big\" } elif x > 3 { print \"mid\" } else { print \"small\" }",
        &["mid"],
    );
}

#[test]
fn non_boolean_condition_is_a_type_failure() {
    let e = expect_error("if 1 { print 2 }");
    assert!(matches!(e, RuntimeError::ConditionNotBoolean));
}

#[test]
fn until_loops_parse_but_do_not_run() {
    let e = expect_error("until true { }");
    assert!(matches!(e, RuntimeError::NotYetImplemented));
}

#[test]
fn print_joins_with_single_spaces() {
    expect_lines("print 1, \"and\", true", &["1 and true"]);
}

#[test]
fn unary_negation() {
    expect_lines("print -5", &["-5"]);
    expect_lines("print -(2 + 3)", &["-5"]);
}

#[test]
fn numeric_overflow_is_a_distinct_failure() {
    let e = expect_error("print 9223372036854775807 + 1");
    assert!(matches!(e, RuntimeError::NumericOverflow));
}

#[test]
fn input_coerces_to_int() {
    let (result, printed) = run_with_inputs("input x: int print x + 1", &[" 42 "]);
    assert!(matches!(result, InterpretResult::Finished));
    assert_eq!(printed, vec!["43".to_string()]);
}

#[test]
fn input_coerces_to_bool_and_str() {
    let (result, printed) = run_with_inputs(
        "input b: bool input s: str print b, s",
        &["true", "hello"],
    );
    assert!(matches!(result, InterpretResult::Finished));
    assert_eq!(printed, vec!["true hello".to_string()]);
}

#[test]
fn invalid_input_names_expected_type_and_text() {
    let (result, _) = run_with_inputs("input x: int", &["abc"]);
    match result {
        InterpretResult::RuntimeError(RuntimeError::InputInvalid { expected, text }) => {
            assert!(matches!(expected, snask::types::Type::Int));
            assert_eq!(text, "abc");
        },
        _ => panic!("expected the invalid-input failure"),
    }
}

#[test]
fn input_without_a_line_fails() {
    let (result, _) = run_with_inputs("input x: int", &[]);
    assert!(matches!(
        result,
        InterpretResult::RuntimeError(RuntimeError::InputClosed)
    ));
}

#[test]
fn return_unwinds_out_of_a_nested_loop() {
    expect_lines(
        "fn find() { mut i = 0 while i < 10 { if i == 4 { return i } i = i + 1 } return 0 - 1 } print find()",
        &["4"],
    );
}

#[test]
fn function_with_no_return_yields_nil() {
    expect_lines("fn noop() { } print noop()", &["nil"]);
}

#[test]
fn return_at_top_level_is_a_failure() {
    let e = expect_error("return 3");
    assert!(matches!(e, RuntimeError::ReturnOutsideFunction));
}

#[test]
fn returned_lists_round_trip_without_re_encoding() {
    expect_lines("fn make() { return [1, \"true\", true] } print make()", &["[1, true, true]"]);
}

#[test]
fn returned_booleans_stay_booleans() {
    expect_lines(
        "fn yes() { return true } if yes() { print \"ran\" }",
        &["ran"],
    );
}

#[test]
fn calling_a_number_fails() {
    let e = expect_error("let n = 3 n(1)");
    assert!(matches!(e, RuntimeError::NotCallable));
}

#[test]
fn assignment_to_undeclared_name_fails() {
    let e = expect_error("ghostly = 1");
    assert!(matches!(e, RuntimeError::UnboundVariable { .. }));
}

#[test]
fn shadowing_resolves_to_the_nearest_binding() {
    expect_lines("let x = 1 mut i = 0 while i < 1 { let x = 2 print x i = i + 1 } print x", &[
        "2",
        "1",
    ]);
}

#[test]
fn string_escapes_reach_the_value() {
    expect_lines("print \"a\\tb\"", &["a\tb"]);
    expect_lines("print \"say \\\"hi\\\"\"", &["say \"hi\""]);
}

#[test]
fn float_typed_input_reads_exact_integers() {
    let (result, printed) = run_with_inputs("input x: float print x", &["7"]);
    assert!(matches!(result, InterpretResult::Finished));
    assert_eq!(printed, vec!["7".to_string()]);
}

#[test]
fn empty_source_is_the_empty_program() {
    let program = snask::parser::parse_program("").unwrap();
    assert!(program.is_empty());
    let (result, printed) = run("");
    assert!(matches!(result, InterpretResult::Finished));
    assert!(printed.is_empty());
}

#[test]
fn dict_rendering_keeps_insertion_order() {
    expect_lines("print {\"a\": 1, \"b\": 2}", &["{a: 1, b: 2}"]);
}

#[test]
fn a_host_supplied_budget_bounds_evaluation() {
    let program = snask::parser::parse_program("fn spin() { return spin() } spin()").unwrap();
    let mut host = RecordingHost::new();
    let mut interp = snask::interpreter::Interpreter::new();
    let result = interp.interpret_with_fuel(&mut host, &program, 1000);
    assert!(matches!(
        result,
        InterpretResult::RuntimeError(RuntimeError::BudgetExhausted)
    ));
}

#[test]
fn nested_lists_render_recursively() {
    expect_lines("print [[1, 2], [], [3]]", &["[[1, 2], [], [3]]"]);
}

fn describe(e: &RuntimeError) -> &'static str {
    match e {
        RuntimeError::DivisionByZero => "division by zero",
        RuntimeError::NumericOverflow => "numeric overflow",
        RuntimeError::BadUnaryOperand => "bad unary operand",
        RuntimeError::BadBinaryOperands => "bad binary operands",
        RuntimeError::ConditionNotBoolean => "condition not boolean",
        RuntimeError::NotIndexable { .. } => "not indexable",
        RuntimeError::ListIndexNotNumber { .. } => "list index not a number",
        RuntimeError::IndexOutOfBounds { .. } => "index out of bounds",
        RuntimeError::KeyNotFound { .. } => "key not found",
        RuntimeError::UnboundVariable { .. } => "unbound variable",
        RuntimeError::NotReassignable { .. } => "not reassignable",
        RuntimeError::NotCallable => "not callable",
        RuntimeError::ArityMismatch { .. } => "arity mismatch",
        RuntimeError::MethodArity { .. } => "method arity",
        RuntimeError::UnknownMethod { .. } => "unknown method",
        RuntimeError::MethodTargetNotCollection => "method target not a collection",
        RuntimeError::ComplexMethodTarget => "complex method target",
        RuntimeError::PropertyOutsideCall => "property outside a call",
        RuntimeError::InputInvalid { .. } => "invalid input",
        RuntimeError::InputUnsupported => "unsupported input type",
        RuntimeError::InputClosed => "input closed",
        RuntimeError::NativeFailure { .. } => "native failure",
        RuntimeError::HostValueMalformed => "malformed host value",
        RuntimeError::BudgetExhausted => "budget exhausted",
        RuntimeError::NotYetImplemented => "not yet implemented",
        RuntimeError::ReturnOutsideFunction => "return outside a function",
    }
}
