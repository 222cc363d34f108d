use minijinja::{compile_expression, Context, Error, ErrorKind, Object, State, Value};
use std::sync::Arc;

#[derive(Debug)]
struct Widget;

impl std::fmt::Display for Widget {
    fn fmt(&self, f: &mut std::fmt::Formatter<'_>) -> std::fmt::Result {
        f.write_str("widget")
    }
}

impl Object for Widget {
    fn get_attr(&self, name: &str) -> Option<Value> {
        if name == "name" {
            Some(Value::from_str("widget"))
        } else {
            None
        }
    }

    fn attributes(&self) -> Vec<String> {
        vec!["name".to_string()]
    }
}

#[derive(Debug)]
struct Greeter;

impl std::fmt::Display for Greeter {
    fn fmt(&self, f: &mut std::fmt::Formatter<'_>) -> std::fmt::Result {
        f.write_str("greeter")
    }
}

impl Object for Greeter {
    fn call_method(&self, _state: &State, name: &str, args: &[Value]) -> Result<Value, Error> {
        if name == "add" && args.len() == 2 {
            if let (Some(a), Some(b)) = (args[0].as_i64(), args[1].as_i64()) {
                return Ok(Value::from_i64(a + b));
            }
        }
        Err(Error::new(ErrorKind::InvalidOperation, format!("object has no method named {}", name)))
    }

    fn call(&self, _state: &State, args: &[Value]) -> Result<Value, Error> {
        Ok(Value::from_i64(args.len() as i64))
    }
}

fn eval_int(src: &str, ctx: &Context<Widget>) -> i64 {
    compile_expression(src).unwrap().eval(ctx).unwrap().as_i64().unwrap()
}

fn kind_of_eval<O: Object>(src: &str, ctx: &Context<O>) -> ErrorKind {
    compile_expression(src).unwrap().eval(ctx).unwrap_err().kind()
}

#[test]
fn adds_two_variables() {
    let mut ctx: Context<Widget> = Context::new();
    ctx.set("x", Value::from_i64(3));
    ctx.set("y", Value::from_i64(4));
    assert_eq!(eval_int("x + y", &ctx), 7);
}

#[test]
fn constant_expression_ignores_context() {
    let empty: Context<Widget> = Context::new();
    assert_eq!(eval_int("1 + 1", &empty), 2);
    let mut full: Context<Widget> = Context::new();
    full.set("x", Value::from_i64(100));
    full.set("1", Value::from_i64(5));
    assert_eq!(eval_int("1 + 1", &full), 2);
}

#[test]
fn object_attribute_and_missing_attribute() {
    let mut ctx: Context<Widget> = Context::new();
    let obj = ctx.add_object(Widget);
    ctx.set("obj", obj);
    let name = compile_expression("obj.name").unwrap().eval(&ctx).unwrap();
    assert_eq!(name.as_str(), Some("widget"));
    let missing = compile_expression("obj.missing").unwrap().eval(&ctx).unwrap();
    assert!(missing.is_undefined());
}

#[test]
fn calling_a_non_callable_object_fails() {
    let mut ctx: Context<Widget> = Context::new();
    let obj = ctx.add_object(Widget);
    ctx.set("obj", obj);
    assert_eq!(kind_of_eval("obj()", &ctx), ErrorKind::InvalidOperation);
}

#[test]
fn malformed_source_is_a_syntax_error() {
    for src in ["1 +", "", "(1", "1 2", "x.", "f(1,", "f(1 2)", "\"open", "1 # 2", "99999999999999999999"] {
        match compile_expression(src) {
            Err(e) => assert_eq!(e.kind(), ErrorKind::SyntaxError, "source {:?}", src),
            Ok(_) => panic!("{:?} compiled", src),
        }
    }
}

#[test]
fn one_expression_two_equal_contexts() {
    let expr = compile_expression("a - b + 1").unwrap();
    let mut c1: Context<Widget> = Context::new();
    c1.set("a", Value::from_i64(10));
    c1.set("b", Value::from_i64(4));
    let mut c2: Context<Widget> = Context::new();
    c2.set("a", Value::from_i64(10));
    c2.set("b", Value::from_i64(4));
    let r1 = expr.eval(&c1).unwrap().as_i64();
    let r2 = expr.eval(&c2).unwrap().as_i64();
    assert_eq!(r1, Some(7));
    assert_eq!(r1, r2);
    assert_eq!(expr.eval(&c1).unwrap().as_i64(), Some(7));
}

#[test]
fn compiling_twice_evaluates_the_same() {
    let mut ctx: Context<Widget> = Context::new();
    ctx.set("n", Value::from_i64(5));
    let a = compile_expression("(n + 2) - 10").unwrap();
    let b = compile_expression("(n + 2) - 10").unwrap();
    assert_eq!(a.eval(&ctx).unwrap().as_i64(), Some(-3));
    assert_eq!(a.eval(&ctx).unwrap().as_i64(), b.eval(&ctx).unwrap().as_i64());
}

#[test]
fn unbound_variable_is_undefined_error() {
    let ctx: Context<Widget> = Context::new();
    assert_eq!(kind_of_eval("nope", &ctx), ErrorKind::UndefinedError);
    assert_eq!(kind_of_eval("1 + nope", &ctx), ErrorKind::UndefinedError);
}

#[test]
fn later_binding_hides_earlier() {
    let mut ctx: Context<Widget> = Context::new();
    ctx.set("x", Value::from_i64(1));
    ctx.set("x", Value::from_i64(2));
    assert_eq!(eval_int("x", &ctx), 2);
}

#[test]
fn overflow_and_type_mismatch_are_invalid_operations() {
    let mut ctx: Context<Widget> = Context::new();
    ctx.set("big", Value::from_i64(i64::MAX));
    ctx.set("s", Value::from_str("text"));
    assert_eq!(kind_of_eval("big + 1", &ctx), ErrorKind::InvalidOperation);
    assert_eq!(kind_of_eval("s + 1", &ctx), ErrorKind::InvalidOperation);
    assert_eq!(kind_of_eval("1()", &ctx), ErrorKind::InvalidOperation);
    assert_eq!(kind_of_eval("s.upper()", &ctx), ErrorKind::InvalidOperation);
    assert_eq!(eval_int("big - 1", &ctx), i64::MAX - 1);
}

#[test]
fn string_literal_and_map_attribute() {
    let mut ctx: Context<Widget> = Context::new();
    ctx.set("m", Value::Dict(vec![(Value::from_str("k"), Value::from_i64(9))]));
    assert_eq!(compile_expression("\"hi there\"").unwrap().eval(&ctx).unwrap().as_str(), Some("hi there"));
    assert_eq!(eval_int("m.k", &ctx), 9);
    assert!(compile_expression("m.other").unwrap().eval(&ctx).unwrap().is_undefined());
    assert!(compile_expression("m.k.deeper").unwrap().eval(&ctx).unwrap().is_undefined());
}

#[test]
fn method_and_direct_calls_through_expressions() {
    let mut ctx: Context<Arc<Greeter>> = Context::new();
    let g = ctx.add_object(Arc::new(Greeter));
    ctx.set("g", g);
    let r = compile_expression("g.add(2, 3) + 1").unwrap().eval(&ctx).unwrap();
    assert_eq!(r.as_i64(), Some(6));
    let r = compile_expression("g(1, \"a\", g)").unwrap().eval(&ctx).unwrap();
    assert_eq!(r.as_i64(), Some(3));
    assert_eq!(kind_of_eval("g.missing()", &ctx), ErrorKind::InvalidOperation);
    assert_eq!(kind_of_eval("g(nope)", &ctx), ErrorKind::UndefinedError);
}

#[test]
fn aliased_object_is_one_object() {
    let mut ctx: Context<Widget> = Context::new();
    let obj = ctx.add_object(Widget);
    ctx.set("a", obj.copy());
    ctx.set("b", obj);
    let a = compile_expression("a").unwrap().eval(&ctx).unwrap();
    let b = compile_expression("b").unwrap().eval(&ctx).unwrap();
    assert_eq!(a.as_object(), b.as_object());
    assert_eq!(compile_expression("b.name").unwrap().eval(&ctx).unwrap().as_str(), Some("widget"));
}

#[test]
fn method_error_comes_back_unchanged() {
    let mut ctx: Context<Arc<Greeter>> = Context::new();
    let g = ctx.add_object(Arc::new(Greeter));
    ctx.set("g", g);
    let err = compile_expression("g.m()").unwrap().eval(&ctx).unwrap_err();
    assert_eq!(err.kind(), ErrorKind::InvalidOperation);
    assert_eq!(err.detail(), "object has no method named m");
}

#[test]
fn uniform_attribute_lookup() {
    let mut ctx: Context<Widget> = Context::new();
    let obj = ctx.add_object(Widget);
    let map = Value::Dict(vec![(Value::from_str("name"), Value::from_i64(1))]);
    assert_eq!(ctx.attr_of(&obj, "name").as_str(), Some("widget"));
    assert!(ctx.attr_of(&obj, "missing").is_undefined());
    assert_eq!(ctx.attr_of(&map, "name").as_i64(), Some(1));
    assert!(ctx.attr_of(&Value::from_i64(3), "name").is_undefined());
    assert!(ctx.attr_of(&Value::from_object(99), "name").is_undefined());
}
