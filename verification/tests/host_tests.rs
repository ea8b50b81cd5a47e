//! Tests of the host interface: registered standard-library modules and
//! native callables provided by a custom host.

use snask::errors::{InterpretResult, RuntimeError};
use snask::host::{Host, RecordingHost};
use snask::interpreter::Interpreter;
use snask::parser::parse_program;
use snask::render::render;
use snask::stdlib::{register_stdlib, NATIVE_FORMAT, NATIVE_MATH_ABS};
use snask::value::Value;

/// A host whose natives actually compute: `format` joins renderings,
/// `abs` negates negative numbers.
struct ComputingHost {
    lines: Vec<String>,
}

impl Host for ComputingHost {
    fn print_line(&mut self, line: String) {
        self.lines.push(line);
    }

    fn read_line(&mut self) -> Option<String> {
        None
    }

    fn call_native(&mut self, id: u64, args: Vec<Value>) -> Result<Value, String> {
        if id == NATIVE_FORMAT {
            let mut out = String::new();
            for (i, a) in args.iter().enumerate() {
                if i > 0 {
                    out.push(' ');
                }
                out.push_str(&render(a));
            }
            Ok(Value::Str(out))
        } else if id == NATIVE_MATH_ABS {
            match args.first() {
                Some(Value::Number(n)) => Ok(Value::Number(n.checked_abs().unwrap_or(i64::MAX))),
                _ => Err("abs expects one Number".to_string()),
            }
        } else {
            Err("unknown native callable".to_string())
        }
    }
}

#[test]
fn stdlib_registration_binds_the_module_names() {
    let program = parse_program("let m = math let s = string print \"bound\"").unwrap();
    let mut interp = Interpreter::new();
    register_stdlib(&mut interp.globals);
    let mut host = RecordingHost::new();
    let result = interp.interpret(&mut host, &program);
    assert!(matches!(result, InterpretResult::Finished));
    assert_eq!(host.lines, vec!["bound".to_string()]);
}

#[test]
fn stdlib_bindings_are_constant() {
    let program = parse_program("math = 1").unwrap();
    let mut interp = Interpreter::new();
    register_stdlib(&mut interp.globals);
    let mut host = RecordingHost::new();
    let result = interp.interpret(&mut host, &program);
    assert!(matches!(
        result,
        InterpretResult::RuntimeError(RuntimeError::NotReassignable { .. })
    ));
}

#[test]
fn native_calls_reach_the_host() {
    let program = parse_program("print format(1, \"a\", true)").unwrap();
    let mut interp = Interpreter::new();
    register_stdlib(&mut interp.globals);
    let mut host = ComputingHost { lines: Vec::new() };
    let result = interp.interpret(&mut host, &program);
    assert!(matches!(result, InterpretResult::Finished));
    assert_eq!(host.lines, vec!["1 a true".to_string()]);
}

#[test]
fn module_members_resolve_through_dict_lookup() {
    let program = parse_program("let f = math[\"abs\"] print f(0 - 4)").unwrap();
    let mut interp = Interpreter::new();
    register_stdlib(&mut interp.globals);
    let mut host = ComputingHost { lines: Vec::new() };
    let result = interp.interpret(&mut host, &program);
    assert!(matches!(result, InterpretResult::Finished));
    assert_eq!(host.lines, vec!["4".to_string()]);
}

#[test]
fn native_failures_carry_the_host_message() {
    let program = parse_program("let f = blaze_db[\"execute\"] f()").unwrap();
    let mut interp = Interpreter::new();
    register_stdlib(&mut interp.globals);
    let mut host = ComputingHost { lines: Vec::new() };
    let result = interp.interpret(&mut host, &program);
    match result {
        InterpretResult::RuntimeError(RuntimeError::NativeFailure { message }) => {
            assert_eq!(message, "unknown native callable");
        },
        _ => panic!("calling an unimplemented native should surface the host's failure"),
    }
}

#[test]
fn analysis_failures_prevent_any_execution() {
    let mut interp = Interpreter::new();
    register_stdlib(&mut interp.globals);
    let mut host = RecordingHost::new();
    let predeclared: Vec<String> = vec!["format".to_string()];
    // the print of a bound name would run; the undeclared reference gates it
    match interp.run_source(&mut host, "print \"early\" print missing_name", &predeclared) {
        snask::interpreter::RunOutcome::AnalysisFailed(errors) => assert!(!errors.is_empty()),
        _ => panic!("an undeclared reference must fail the static analysis"),
    }
    assert!(host.lines.is_empty(), "a program that fails analysis must run zero statements");
}

#[test]
fn clean_sources_run_through_the_pipeline() {
    let mut interp = Interpreter::new();
    register_stdlib(&mut interp.globals);
    let mut host = RecordingHost::new();
    let predeclared: Vec<String> = Vec::new();
    match interp.run_source(&mut host, "print 2 + 2", &predeclared) {
        snask::interpreter::RunOutcome::Ran(InterpretResult::Finished) => {},
        _ => panic!("a clean program should run"),
    }
    assert_eq!(host.lines, vec!["4".to_string()]);
}

#[test]
fn unknown_natives_fail_on_the_recording_host() {
    let program = parse_program("format(1)").unwrap();
    let mut interp = Interpreter::new();
    register_stdlib(&mut interp.globals);
    let mut host = RecordingHost::new();
    let result = interp.interpret(&mut host, &program);
    assert!(matches!(
        result,
        InterpretResult::RuntimeError(RuntimeError::NativeFailure { .. })
    ));
}
