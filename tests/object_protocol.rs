use minijinja::{Error, ErrorKind, Object, State, Value};
use std::sync::Arc;

#[derive(Debug)]
struct Widget;

impl std::fmt::Display for Widget {
    fn fmt(&self, f: &mut std::fmt::Formatter<'_>) -> std::fmt::Result {
        f.write_str("widget")
    }
}

impl Object for Widget {
    fn get_attr(&self, name: &str) -> Option<Value> {
        if name == "name" {
            Some(Value::from_str("widget"))
        } else {
            None
        }
    }

    fn attributes(&self) -> Vec<String> {
        vec!["name".to_string()]
    }
}

#[derive(Debug)]
struct Plain;

impl std::fmt::Display for Plain {
    fn fmt(&self, f: &mut std::fmt::Formatter<'_>) -> std::fmt::Result {
        f.write_str("plain")
    }
}

impl Object for Plain {}

#[derive(Debug)]
struct Adder;

impl std::fmt::Display for Adder {
    fn fmt(&self, f: &mut std::fmt::Formatter<'_>) -> std::fmt::Result {
        f.write_str("adder")
    }
}

impl Object for Adder {
    fn call_method(&self, state: &State, name: &str, args: &[Value]) -> Result<Value, Error> {
        if name == "double" && args.len() == 1 {
            if let Some(i) = args[0].as_i64() {
                return Ok(Value::from_i64(i * 2));
            }
        }
        if name == "caller" {
            return Ok(Value::from_str(state.name()));
        }
        Err(Error::new(ErrorKind::InvalidOperation, format!("object has no method named {}", name)))
    }

    fn call(&self, _state: &State, args: &[Value]) -> Result<Value, Error> {
        let mut sum = 0i64;
        for a in args {
            sum += a.as_i64().unwrap_or(0);
        }
        Ok(Value::from_i64(sum))
    }
}

fn state() -> State {
    State::new("test")
}

#[test]
fn default_get_attr_is_absent() {
    assert!(Plain.get_attr("anything").is_none());
    assert!(Plain.get_attr("").is_none());
}

#[test]
fn missing_attr_is_absent() {
    assert!(Widget.get_attr("missing").is_none());
    assert_eq!(Widget.get_attr("name").unwrap().as_str(), Some("widget"));
}

#[test]
fn default_attributes_are_empty() {
    assert!(Plain.attributes().is_empty());
    assert_eq!(Widget.attributes(), vec!["name".to_string()]);
}

#[test]
fn default_call_method_fails() {
    let s = state();
    for args in [vec![], vec![Value::from_i64(1)], vec![Value::from_str("x"), Value::Null]] {
        let err = Plain.call_method(&s, "frob", &args).unwrap_err();
        assert_eq!(err.kind(), ErrorKind::InvalidOperation);
        assert_eq!(err.detail(), "object has no method named frob");
    }
}

#[test]
fn unknown_method_fails_for_implemented_object() {
    let s = state();
    let err = Adder.call_method(&s, "triple", &[Value::from_i64(2)]).unwrap_err();
    assert_eq!(err.kind(), ErrorKind::InvalidOperation);
    assert_eq!(Adder.call_method(&s, "double", &[Value::from_i64(21)]).unwrap().as_i64(), Some(42));
}

#[test]
fn default_call_fails() {
    let s = state();
    let err = Plain.call(&s, &[]).unwrap_err();
    assert_eq!(err.kind(), ErrorKind::InvalidOperation);
    assert_eq!(err.detail(), "tried to call non callable object");
    assert_eq!(Widget.call(&s, &[Value::from_i64(1)]).unwrap_err().kind(), ErrorKind::InvalidOperation);
}

#[test]
fn direct_call_of_callable_object() {
    let s = state();
    let r = Adder.call(&s, &[Value::from_i64(1), Value::from_i64(2)]).unwrap();
    assert_eq!(r.as_i64(), Some(3));
}

#[test]
fn shared_wrapper_forwards_attributes() {
    let one = Arc::new(Widget);
    let two = Arc::new(Arc::new(Widget));
    assert_eq!(one.get_attr("name").unwrap().as_str(), Some("widget"));
    assert_eq!(two.get_attr("name").unwrap().as_str(), Some("widget"));
    assert!(one.get_attr("missing").is_none());
    assert!(two.get_attr("missing").is_none());
    assert_eq!(Object::attributes(&one), Widget.attributes());
    assert_eq!(Object::attributes(&two), Widget.attributes());
}

#[test]
fn shared_wrapper_forwards_calls() {
    let s = state();
    let plain = Arc::new(Arc::new(Plain));
    let err = plain.call_method(&s, "frob", &[]).unwrap_err();
    assert_eq!(err.kind(), ErrorKind::InvalidOperation);
    assert_eq!(err.detail(), Plain.call_method(&s, "frob", &[]).unwrap_err().detail());
    let err = Object::call(&plain, &s, &[]).unwrap_err();
    assert_eq!(err.detail(), "tried to call non callable object");

    let adder = Arc::new(Adder);
    assert_eq!(adder.call_method(&s, "double", &[Value::from_i64(4)]).unwrap().as_i64(), Some(8));
    assert_eq!(Object::call(&adder, &s, &[Value::from_i64(4), Value::from_i64(5)]).unwrap().as_i64(), Some(9));
}

#[test]
fn state_is_passed_through() {
    let s = State::new("tmpl");
    assert_eq!(s.name(), "tmpl");
    let r = Adder.call_method(&s, "caller", &[]).unwrap();
    assert_eq!(r.as_str(), Some("tmpl"));
}

#[test]
fn objects_have_display_and_debug_forms() {
    assert_eq!(Widget.to_string(), "widget");
    assert_eq!(format!("{:?}", Widget), "Widget");
    let shared = Arc::new(Arc::new(Widget));
    assert_eq!(shared.to_string(), "widget");
    assert_eq!(format!("{:?}", shared), "Widget");
}

#[test]
fn shared_wrapper_of_object_without_attributes_lists_none() {
    let one = Arc::new(Plain);
    let two = Arc::new(Arc::new(Plain));
    assert!(Object::attributes(&one).is_empty());
    assert!(Object::attributes(&two).is_empty());
    assert!(one.get_attr("x").is_none());
}

#[test]
fn defaults_through_shared_wrappers() {
    let s = state();
    let w = Arc::new(Arc::new(Plain));
    assert!(w.get_attr("name").is_none());
    assert!(Object::attributes(&w).is_empty());
    let err = w.call_method(&s, "m", &[Value::from_i64(1)]).unwrap_err();
    assert_eq!(err.detail(), "object has no method named m");
    let err = Object::call(&w, &s, &[]).unwrap_err();
    assert_eq!(err.kind(), ErrorKind::InvalidOperation);
    assert_eq!(err.detail(), "tried to call non callable object");
}

#[test]
fn ok_primitive_passes_through_wrapper() {
    let s = state();
    let w = Arc::new(Arc::new(Adder));
    assert_eq!(w.call_method(&s, "double", &[Value::from_i64(-4)]).unwrap().as_i64(), Some(-8));
    assert_eq!(w.call_method(&s, "caller", &[]).unwrap().as_str(), Some("test"));
}
