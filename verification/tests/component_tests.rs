//! Unit tests of the individual components: parser and diagnostics,
//! semantic analyzer, value model, rendering, input coercion, routing,
//! packages, modules, types, and authentication.

use snask::analyzer::SemanticAnalyzer;
use snask::auth::{AuthStore, LoginOutcome, RegisterOutcome};
use snask::dict::{dict_find, dict_insert};
use snask::input::{coerce_input, parse_bool, parse_i64, trim_chars};
use snask::modules::module_candidate_paths;
use snask::packages::{classify_install_target, registry_module_url, InstallSource};
use snask::parser::parse_program;
use snask::render::render;
use snask::routing::{match_route, split_segments};
use snask::types::{Type, TypeParseError};
use snask::value::{value_eq, value_wf_check, FunRef, Value};

#[test]
fn parse_error_carries_a_structured_position() {
    let err = match parse_program("let = 5") {
        Err(d) => d,
        Ok(_) => panic!("a malformed declaration must not parse"),
    };
    assert!(!err.annotations.is_empty());
    let pos = err.annotations[0].span.start;
    assert_eq!(pos.line, 1);
    assert!(pos.col >= 1);
    let rendered = err.render("demo.snask", "let = 5");
    assert!(rendered.contains("demo.snask"));
}

#[test]
fn fractional_literals_are_refused_at_the_lexer() {
    assert!(parse_program("print 1.5").is_err());
}

#[test]
fn unterminated_strings_are_refused() {
    assert!(parse_program("print \"open").is_err());
}

#[test]
fn statements_must_be_statements() {
    assert!(parse_program("1 + 1").is_err());
}

#[test]
fn comments_are_skipped() {
    assert!(parse_program("# a note\nlet x = 1 # another\nprint x").is_ok());
}

#[test]
fn precedence_puts_multiplication_before_addition() {
    // 2 + 3 * 4 must be 14, not 20
    let program = parse_program("print 2 + 3 * 4").unwrap();
    let mut host = snask::host::RecordingHost::new();
    let mut interp = snask::interpreter::Interpreter::new();
    interp.interpret(&mut host, &program);
    assert_eq!(host.lines, vec!["14".to_string()]);
}

#[test]
fn precedence_puts_addition_before_comparison() {
    let program = parse_program("print 1 + 1 == 2").unwrap();
    let mut host = snask::host::RecordingHost::new();
    let mut interp = snask::interpreter::Interpreter::new();
    interp.interpret(&mut host, &program);
    assert_eq!(host.lines, vec!["true".to_string()]);
}

#[test]
fn analyzer_accepts_a_clean_program() {
    let program = parse_program("let x = 1 print x").unwrap();
    let mut a = SemanticAnalyzer::new();
    a.analyze(&program);
    assert!(a.errors.is_empty());
}

#[test]
fn analyzer_flags_an_undeclared_reference() {
    let program = parse_program("print ghost_name").unwrap();
    let mut a = SemanticAnalyzer::new();
    a.analyze(&program);
    assert_eq!(a.errors.len(), 1);
}

#[test]
fn analyzer_flags_a_static_arity_mismatch() {
    let program = parse_program("fn f(a) { return a } let y = f(1, 2)").unwrap();
    let mut a = SemanticAnalyzer::new();
    a.analyze(&program);
    assert_eq!(a.errors.len(), 1);
}

#[test]
fn analyzer_flags_a_literal_condition() {
    let program = parse_program("if 3 { print 1 }").unwrap();
    let mut a = SemanticAnalyzer::new();
    a.analyze(&program);
    assert!(!a.errors.is_empty());
}

#[test]
fn analyzer_honours_predeclared_hosts() {
    let program = parse_program("print math_table").unwrap();
    let mut a = SemanticAnalyzer::new();
    a.predeclare("math_table".to_string());
    a.analyze(&program);
    assert!(a.errors.is_empty());
}

#[test]
fn analyzer_keeps_function_bodies_away_from_caller_locals() {
    let program = parse_program(
        "mut i = 0 while i < 1 { let local_only = 1 fn peek() { return local_only } i = i + 1 }",
    )
    .unwrap();
    let mut a = SemanticAnalyzer::new();
    a.analyze(&program);
    assert!(!a.errors.is_empty());
}

#[test]
fn rendering_matches_the_language_forms() {
    assert_eq!(render(&Value::Number(0)), "0");
    assert_eq!(render(&Value::Number(i64::MIN)), "-9223372036854775808");
    assert_eq!(render(&Value::Nil), "nil");
    assert_eq!(render(&Value::Boolean(false)), "false");
    let l = Value::List(vec![Value::Number(1), Value::Str("s".to_string())]);
    assert_eq!(render(&l), "[1, s]");
    let f = Value::Function(FunRef { index: 0, name: "probe".to_string() });
    assert_eq!(render(&f), "<fun probe>");
}

#[test]
fn value_equality_is_structural_and_deep() {
    let a = Value::List(vec![Value::Number(1), Value::List(vec![Value::Boolean(true)])]);
    let b = Value::List(vec![Value::Number(1), Value::List(vec![Value::Boolean(true)])]);
    let c = Value::List(vec![Value::Number(1), Value::List(vec![Value::Boolean(false)])]);
    assert!(value_eq(&a, &b));
    assert!(!value_eq(&a, &c));
}

#[test]
fn dict_insert_keeps_keys_distinct() {
    let mut ps: Vec<(Value, Value)> = Vec::new();
    dict_insert(&mut ps, Value::Str("k".to_string()), Value::Number(1));
    dict_insert(&mut ps, Value::Str("k".to_string()), Value::Number(2));
    assert_eq!(ps.len(), 1);
    let found = dict_find(&ps, &Value::Str("k".to_string()));
    assert_eq!(found, Some(0));
    assert!(value_eq(&ps[0].1, &Value::Number(2)));
}

#[test]
fn well_formedness_checks_function_indices() {
    let good = Value::Function(FunRef { index: 0, name: "f".to_string() });
    assert!(value_wf_check(&good, 1));
    assert!(!value_wf_check(&good, 0));
}

#[test]
fn trimming_and_integer_parsing() {
    let cs: Vec<char> = "  -42\t".chars().collect();
    let t = trim_chars(&cs);
    assert_eq!(t.iter().collect::<String>(), "-42");
    assert_eq!(parse_i64(&t), Some(-42));
    let min: Vec<char> = "-9223372036854775808".chars().collect();
    assert_eq!(parse_i64(&min), Some(i64::MIN));
    let over: Vec<char> = "9223372036854775808".chars().collect();
    assert_eq!(parse_i64(&over), None);
    let junk: Vec<char> = "12x".chars().collect();
    assert_eq!(parse_i64(&junk), None);
}

#[test]
fn boolean_parsing_is_exact() {
    let t: Vec<char> = "true".chars().collect();
    let f: Vec<char> = "false".chars().collect();
    let other: Vec<char> = "True".chars().collect();
    assert_eq!(parse_bool(&t), Some(true));
    assert_eq!(parse_bool(&f), Some(false));
    assert_eq!(parse_bool(&other), None);
}

#[test]
fn unsupported_input_types_are_refused() {
    let cs: Vec<char> = "x".chars().collect();
    assert!(coerce_input(&cs, &Type::List).is_err());
}

#[test]
fn type_names_parse_and_classify() {
    assert!(matches!(Type::from_str("int"), Ok(Type::Int)));
    assert!(matches!(Type::from_str("float"), Ok(Type::Float)));
    assert!(matches!(Type::from_str("str"), Ok(Type::Str)));
    let e: Result<Type, TypeParseError> = Type::from_str("whatever");
    assert!(e.is_err());
    assert!(Type::Int.is_numeric());
    assert!(Type::Float.is_numeric());
    assert!(!Type::Bool.is_numeric());
}

#[test]
fn routes_capture_parameters() {
    let params = match_route("/users/:id/posts/:post", "/users/7/posts/19").unwrap();
    assert_eq!(params.len(), 2);
    assert_eq!(params[0].0, "id");
    assert_eq!(params[0].1, "7");
    assert_eq!(params[1].0, "post");
    assert_eq!(params[1].1, "19");
}

#[test]
fn routes_reject_mismatches() {
    assert!(match_route("/users/:id", "/posts/7").is_none());
    assert!(match_route("/users/:id", "/users/7/extra").is_none());
    assert!(match_route("/users", "/users").unwrap().is_empty());
}

#[test]
fn split_drops_empty_segments() {
    let segs = split_segments("//a//b/");
    let got: Vec<&str> = segs.iter().map(|s| s.as_str()).collect();
    assert_eq!(got, vec!["a", "b"]);
}

#[test]
fn install_targets_classify_by_url() {
    assert!(matches!(
        classify_install_target("https://example.com/repo.git"),
        InstallSource::GitRepository
    ));
    assert!(matches!(
        classify_install_target("plain_module"),
        InstallSource::RegistryPackage
    ));
}

#[test]
fn registry_urls_concatenate() {
    let u = registry_module_url("https://example.com/registry/", "extras");
    assert_eq!(u, "https://example.com/registry/extras.rs");
}

#[test]
fn module_paths_try_package_then_file_then_relative() {
    let dir = "/home/user/packages".to_string();
    let paths = module_candidate_paths(Some(&dir), "tools");
    let got: Vec<&str> = paths.iter().map(|s| s.as_str()).collect();
    assert_eq!(
        got,
        vec![
            "/home/user/packages/tools/main.snask",
            "/home/user/packages/tools.snask",
            "tools"
        ]
    );
    let direct = module_candidate_paths(None, "here.snask");
    assert_eq!(direct.len(), 1);
    assert_eq!(direct[0], "here.snask");
}

#[test]
fn module_paths_replace_a_foreign_extension() {
    let dir = "/packages".to_string();
    let paths = module_candidate_paths(Some(&dir), "pkg.v1");
    assert_eq!(paths[1], "/packages/pkg.snask");
    let kept = module_candidate_paths(Some(&dir), "pkg.snask");
    assert_eq!(kept[1], "/packages/pkg.snask");
    let hidden = module_candidate_paths(Some(&dir), ".hidden");
    assert_eq!(hidden[1], "/packages/.hidden.snask");
}

#[test]
fn registration_validates_before_hashing() {
    let mut store = AuthStore::new();
    assert!(matches!(
        store.register("ab", "a@b.c", "longenough", 100),
        RegisterOutcome::UsernameTooShort
    ));
    assert!(matches!(
        store.register("alice", "a@b.c", "tiny", 100),
        RegisterOutcome::PasswordTooShort
    ));
    assert!(matches!(
        store.register("alice", "nowhere", "longenough", 100),
        RegisterOutcome::EmailInvalid
    ));
    assert_eq!(store.users.len(), 0);
}

#[test]
fn login_round_trips_through_the_password_hash() {
    let mut store = AuthStore::new();
    let outcome = store.register("alice", "alice@example.com", "opensesame", 100);
    let user_id = match outcome {
        RegisterOutcome::Registered(id) => id,
        _ => panic!("registration should succeed"),
    };
    assert_eq!(user_id.len(), 36);
    match store.login("alice", "opensesame", 200) {
        LoginOutcome::LoggedIn(sid) => {
            assert_eq!(sid.len(), 36);
            let uid = store.authenticate(&sid, 300).expect("the session should be valid");
            assert_eq!(uid, user_id);
            assert!(store.logout(&sid));
            assert!(store.authenticate(&sid, 300).is_none());
        },
        _ => panic!("login with the right password should succeed"),
    }
    assert!(matches!(
        store.login("alice", "wrongpass", 200),
        LoginOutcome::BadCredentials
    ));
    assert!(matches!(
        store.login("nobody", "opensesame", 200),
        LoginOutcome::UnknownUser
    ));
}

#[test]
fn duplicate_usernames_and_emails_are_refused() {
    let mut store = AuthStore::new();
    assert!(matches!(
        store.register("alice", "alice@example.com", "opensesame", 100),
        RegisterOutcome::Registered(_)
    ));
    assert!(matches!(
        store.register("alice", "other@example.com", "opensesame", 100),
        RegisterOutcome::UsernameTaken
    ));
    assert!(matches!(
        store.register("bob", "alice@example.com", "opensesame", 100),
        RegisterOutcome::EmailTaken
    ));
}

#[test]
fn sessions_expire_by_the_clock() {
    let mut store = AuthStore::new();
    store.register("carol", "carol@example.com", "opensesame", 0);
    let sid = match store.login("carol", "opensesame", 0) {
        LoginOutcome::LoggedIn(sid) => sid,
        _ => panic!("login should succeed"),
    };
    let week = snask::auth::SESSION_SECONDS;
    assert!(store.authenticate(&sid, week - 1).is_some());
    assert!(store.authenticate(&sid, week).is_none());
    // the expired session was removed
    assert!(store.sessions.is_empty());
}
