use rinha_eval::ast::Location;
use rinha_eval::stack::{Bindings, Call, CallStack};
use rinha_eval::value::RuntimeValue;

fn loc() -> Location {
    Location { start: 0, end: 0, filename: "test".to_string() }
}

fn frame() -> Call {
    Call { callee: None, arguments: Vec::new(), location: loc(), var_scope: Bindings::new() }
}

#[test]
fn push_pop_track_length() {
    let mut stack = CallStack::new();
    assert_eq!(stack.len(), 0);
    stack.push(frame());
    stack.push(frame());
    assert_eq!(stack.len(), 2);
    stack.pop();
    assert_eq!(stack.len(), 1);
}

#[test]
fn set_var_writes_into_current_frame() {
    let mut stack = CallStack::new();
    stack.push(frame());
    stack.set_var(&"x".to_string(), RuntimeValue::Int(7));
    match stack.get_var(&"x".to_string()) {
        Some(RuntimeValue::Int(n)) => assert_eq!(n, 7),
        other => panic!("unexpected {other:?}"),
    }
}

#[test]
fn get_var_scans_from_most_recent_frame() {
    let mut stack = CallStack::new();
    stack.push(frame());
    stack.set_var(&"x".to_string(), RuntimeValue::Int(1));
    stack.set_var(&"y".to_string(), RuntimeValue::Int(9));
    stack.push(frame());
    stack.set_var(&"x".to_string(), RuntimeValue::Int(2));
    // the inner frame shadows "x" but leaves "y" visible below it
    assert!(matches!(stack.get_var(&"x".to_string()), Some(RuntimeValue::Int(2))));
    assert!(matches!(stack.get_var(&"y".to_string()), Some(RuntimeValue::Int(9))));
    stack.pop();
    assert!(matches!(stack.get_var(&"x".to_string()), Some(RuntimeValue::Int(1))));
}

#[test]
fn get_var_misses_when_nothing_binds() {
    let mut stack = CallStack::new();
    stack.push(frame());
    assert!(stack.get_var(&"nope".to_string()).is_none());
}

#[test]
fn last_write_wins_within_a_frame() {
    let mut stack = CallStack::new();
    stack.push(frame());
    stack.set_var(&"x".to_string(), RuntimeValue::Int(1));
    stack.set_var(&"x".to_string(), RuntimeValue::Int(2));
    assert!(matches!(stack.get_var(&"x".to_string()), Some(RuntimeValue::Int(2))));
}
