use command_bridge::command::{greet, Arg, ErrorKind, Handler, Value, ValueType};
use command_bridge::registry::{DuplicatePolicy, Registry};

fn name_arg(s: &str) -> Vec<Arg> {
    vec![Arg::new("name", Value::Str(s.to_string()))]
}

fn expect_str(r: Result<Value, command_bridge::command::CommandError>) -> String {
    match r {
        Ok(Value::Str(s)) => s,
        other => panic!("expected a string, got {:?}", other),
    }
}

#[test]
fn greet_world() {
    let reg = Registry::standard();
    let out = expect_str(reg.dispatch("greet", &name_arg("World")));
    assert_eq!(out, "Hello, World! Tauri backend is working.");
}

#[test]
fn greet_function_directly() {
    assert_eq!(greet("Ada"), "Hello, Ada! Tauri backend is working.");
    assert_eq!(greet(""), "Hello, ! Tauri backend is working.");
}

#[test]
fn greet_missing_name() {
    let reg = Registry::standard();
    let err = reg.dispatch("greet", &Vec::new()).unwrap_err();
    assert_eq!(err.kind, ErrorKind::InvalidArgument);
    assert_eq!(err.message, "name");
}

#[test]
fn greet_wrong_type() {
    let reg = Registry::standard();
    let args = vec![Arg::new("name", Value::Int(3))];
    let err = reg.dispatch("greet", &args).unwrap_err();
    assert_eq!(err.kind, ErrorKind::InvalidArgument);
    assert_eq!(err.message, "name");
}

#[test]
fn greet_ignores_extra_and_takes_last_duplicate() {
    let reg = Registry::standard();
    let args = vec![
        Arg::new("name", Value::Str("First".to_string())),
        Arg::new("other", Value::Bool(true)),
        Arg::new("name", Value::Str("Last".to_string())),
    ];
    let out = expect_str(reg.dispatch("greet", &args));
    assert_eq!(out, "Hello, Last! Tauri backend is working.");
}

#[test]
fn registered_command_returns_declared_type() {
    let reg = Registry::standard();
    let v = reg.dispatch("greet", &name_arg("x")).unwrap();
    assert_eq!(v.value_type(), ValueType::Str);
    let h = reg.lookup("greet").unwrap();
    assert_eq!(h, Handler::Greet);
    let params = h.params();
    assert_eq!(params.len(), 1);
    assert_eq!(params[0].name, "name");
    assert_eq!(params[0].ty, ValueType::Str);
}

#[test]
fn unknown_command_fails() {
    let reg = Registry::standard();
    let err = reg.dispatch("farewell", &name_arg("World")).unwrap_err();
    assert_eq!(err.kind, ErrorKind::UnknownCommand);
    assert_eq!(err.message, "farewell");
    let err = reg.dispatch("", &Vec::new()).unwrap_err();
    assert_eq!(err.kind, ErrorKind::UnknownCommand);
    let err = reg.lookup("Greet").unwrap_err();
    assert_eq!(err.kind, ErrorKind::UnknownCommand);
    assert_eq!(err.message, "Greet");
}

#[test]
fn empty_registry_knows_nothing() {
    let reg = Registry::new(DuplicatePolicy::Reject);
    assert_eq!(reg.len(), 0);
    let err = reg.dispatch("greet", &name_arg("World")).unwrap_err();
    assert_eq!(err.kind, ErrorKind::UnknownCommand);
}

#[test]
fn strict_registry_refuses_duplicate() {
    let mut reg = Registry::standard();
    assert_eq!(reg.policy(), DuplicatePolicy::Reject);
    let err = reg.register("greet", Handler::Greet).unwrap_err();
    assert_eq!(err.kind, ErrorKind::DuplicateCommand);
    assert_eq!(err.message, "greet");
    assert_eq!(reg.len(), 1);
    let out = expect_str(reg.dispatch("greet", &name_arg("World")));
    assert_eq!(out, "Hello, World! Tauri backend is working.");
}

#[test]
fn overwrite_registry_replaces_handler() {
    let mut reg = Registry::new(DuplicatePolicy::Overwrite);
    assert!(reg.register("hello", Handler::Greet).is_ok());
    assert!(reg.register("hello", Handler::Greet).is_ok());
    assert_eq!(reg.len(), 1);
    let out = expect_str(reg.dispatch("hello", &name_arg("Bob")));
    assert_eq!(out, "Hello, Bob! Tauri backend is working.");
}

#[test]
fn distinct_names_both_registered() {
    let mut reg = Registry::new(DuplicatePolicy::Reject);
    assert!(reg.register("greet", Handler::Greet).is_ok());
    assert!(reg.register("hello", Handler::Greet).is_ok());
    assert_eq!(reg.len(), 2);
    let a = expect_str(reg.dispatch("greet", &name_arg("A")));
    let b = expect_str(reg.dispatch("hello", &name_arg("A")));
    assert_eq!(a, b);
}

#[test]
fn repeated_dispatch_is_identical() {
    let reg = Registry::standard();
    let args = name_arg("World");
    let first = expect_str(reg.dispatch("greet", &args));
    let second = expect_str(reg.dispatch("greet", &args));
    assert_eq!(first, second);
    let e1 = reg.dispatch("greet", &Vec::new()).unwrap_err();
    let e2 = reg.dispatch("greet", &Vec::new()).unwrap_err();
    assert_eq!(e1.kind, e2.kind);
    assert_eq!(e1.message, e2.message);
}

#[test]
fn value_helpers() {
    let v = Value::Str("abc".to_string());
    match v.duplicate() {
        Value::Str(s) => assert_eq!(s, "abc"),
        _ => panic!("wrong variant"),
    }
    assert_eq!(Value::Int(-4).value_type(), ValueType::Int);
    assert_eq!(Value::Bool(false).value_type(), ValueType::Bool);
}
