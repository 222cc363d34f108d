use vstd::prelude::*;

use crate::context::Context;
use crate::error::{Error, ErrorKind};
use crate::object::Object;
use crate::state::State;
use crate::value::{map_lookup, Value, ValueView};

verus! {

/// A parsed expression.
#[derive(Debug)]
pub enum Expr {
    /// An integer literal.
    Int(i64),
    /// A string literal.
    Str(String),
    /// A variable of the context.
    Var(String),
    Add(Box<Expr>, Box<Expr>),
    Sub(Box<Expr>, Box<Expr>),
    /// `base.name`
    Attr(Box<Expr>, String),
    /// `callee(args)`
    Call(Box<Expr>, Vec<Expr>),
    /// `base.name(args)`
    MethodCall(Box<Expr>, String, Vec<Expr>),
}

/// The model of an expression.
pub enum ExprView {
    Int(int),
    Str(Seq<char>),
    Var(Seq<char>),
    Add(Box<ExprView>, Box<ExprView>),
    Sub(Box<ExprView>, Box<ExprView>),
    Attr(Box<ExprView>, Seq<char>),
    Call(Box<ExprView>, Seq<ExprView>),
    MethodCall(Box<ExprView>, Seq<char>, Seq<ExprView>),
}

impl View for Expr {
    type V = ExprView;

    open spec fn view(&self) -> ExprView
        decreases self,
    {
        match self {
            Expr::Int(i) => ExprView::Int(*i as int),
            Expr::Str(s) => ExprView::Str(s@),
            Expr::Var(n) => ExprView::Var(n@),
            Expr::Add(a, b) => ExprView::Add(Box::new((**a).view()), Box::new((**b).view())),
            Expr::Sub(a, b) => ExprView::Sub(Box::new((**a).view()), Box::new((**b).view())),
            Expr::Attr(b, n) => ExprView::Attr(Box::new((**b).view()), n@),
            Expr::Call(f, args) => ExprView::Call(Box::new((**f).view()), expr_views(args@)),
            Expr::MethodCall(b, n, args) => ExprView::MethodCall(Box::new((**b).view()), n@, expr_views(args@)),
        }
    }
}

/// The models of a sequence of expressions, one for one.
pub open spec fn expr_views(items: Seq<Expr>) -> Seq<ExprView>
    decreases items,
{
    if items.len() == 0 {
        Seq::empty()
    } else {
        expr_views(items.subrange(0, items.len() - 1)).push(items[items.len() - 1].view())
    }
}

pub proof fn lemma_expr_views_len(items: Seq<Expr>)
    ensures
        expr_views(items).len() == items.len(),
    decreases items.len(),
{
    if items.len() > 0 {
        assert(decreases_to!(items => items.subrange(0, items.len() - 1)));
        assert(decreases_to!(items => items[items.len() - 1]));
        let sub = items.subrange(0, items.len() - 1);
        lemma_expr_views_len(sub);
        assert(items =~= sub.push(items[items.len() - 1]));
        lemma_expr_views_push(sub, items[items.len() - 1]);
    }
}

pub proof fn lemma_expr_views_push(items: Seq<Expr>, x: Expr)
    ensures
        expr_views(items.push(x)) == expr_views(items).push(x@),
{
    let s = items.push(x);
    assert(s.subrange(0, items.len() as int) =~= items);
    assert(decreases_to!(s => s.subrange(0, s.len() - 1)));
    assert(decreases_to!(s => s[s.len() - 1]));
}

pub proof fn lemma_expr_views_index(items: Seq<Expr>)
    ensures
        expr_views(items).len() == items.len(),
        forall|j: int| 0 <= j < items.len() ==> #[trigger] expr_views(items)[j] == items[j]@,
    decreases items.len(),
{
    lemma_expr_views_len(items);
    if items.len() > 0 {
        let sub = items.subrange(0, items.len() - 1);
        lemma_expr_views_index(sub);
        assert(items =~= sub.push(items[items.len() - 1]));
        lemma_expr_views_push(sub, items[items.len() - 1]);
        assert forall|j: int| 0 <= j < items.len() implies #[trigger] expr_views(items)[j] == items[j]@ by {
            if j < items.len() - 1 {
                assert(sub[j] == items[j]);
            }
        }
    }
}

/// How a result is seen by contracts: the value's model, or the error's kind.
pub open spec fn outcome(r: Result<Value, Error>) -> Result<ValueView, ErrorKind> {
    match r {
        Ok(v) => Ok(v@),
        Err(e) => Err(e.kind),
    }
}

pub open spec fn in_i64(n: int) -> bool {
    i64::MIN <= n <= i64::MAX
}

/// `+` and `-` on two values: integers only, failing on overflow.
pub open spec fn arith_spec(x: ValueView, y: ValueView, subtract: bool) -> Result<ValueView, ErrorKind> {
    match (x, y) {
        (ValueView::Int(a), ValueView::Int(b)) => {
            let n = if subtract { a - b } else { a + b };
            if in_i64(n) {
                Ok(ValueView::Int(n))
            } else {
                Err(ErrorKind::InvalidOperation)
            }
        },
        _ => Err(ErrorKind::InvalidOperation),
    }
}

/// The attribute `name` of a value: a map's entry, an object's attribute, or
/// else undefined. `None` where the object's own answer decides.
pub open spec fn attr_spec<O: Object>(base: ValueView, name: Seq<char>, objs: Seq<O>) -> Option<Result<ValueView, ErrorKind>> {
    match base {
        ValueView::Dict(es) => match map_lookup(es, name) {
            Some(v) => Some(Ok(v)),
            None => Some(Ok(ValueView::Undefined)),
        },
        ValueView::Object(h) => if h >= objs.len() {
            Some(Ok(ValueView::Undefined))
        } else if objs[h as int].describes_attrs() && objs[h as int].attr(name) is None {
            Some(Ok(ValueView::Undefined))
        } else {
            None
        },
        _ => Some(Ok(ValueView::Undefined)),
    }
}

/// What evaluating `e` gives, where that does not rest on what a host object
/// returns; `None` where it does.
pub open spec fn eval_spec<O: Object>(
    e: ExprView,
    binds: Seq<(Seq<char>, ValueView)>,
    objs: Seq<O>,
) -> Option<Result<ValueView, ErrorKind>>
    decreases e,
{
    match e {
        ExprView::Int(i) => Some(Ok(ValueView::Int(i))),
        ExprView::Str(s) => Some(Ok(ValueView::String(s))),
        ExprView::Var(n) => match crate::context::lookup_binding(binds, n) {
            Some(v) => Some(Ok(v)),
            None => Some(Err(ErrorKind::UndefinedError)),
        },
        ExprView::Add(a, b) | ExprView::Sub(a, b) => {
            let subtract = e is Sub;
            match eval_spec(*a, binds, objs) {
                Some(Ok(x)) => match eval_spec(*b, binds, objs) {
                    Some(Ok(y)) => Some(arith_spec(x, y, subtract)),
                    other => other,
                },
                other => other,
            }
        },
        ExprView::Attr(b, n) => match eval_spec(*b, binds, objs) {
            Some(Ok(x)) => attr_spec(x, n, objs),
            other => other,
        },
        ExprView::Call(f, args) => match eval_spec(*f, binds, objs) {
            Some(Ok(ValueView::Object(h))) => if h >= objs.len() {
                Some(Err(ErrorKind::InvalidOperation))
            } else if args.len() == 0 && !objs[h as int].is_callable() {
                Some(Err(ErrorKind::InvalidOperation))
            } else {
                None
            },
            Some(Ok(_)) => Some(Err(ErrorKind::InvalidOperation)),
            other => other,
        },
        ExprView::MethodCall(b, n, args) => match eval_spec(*b, binds, objs) {
            Some(Ok(ValueView::Object(h))) => if h >= objs.len() {
                Some(Err(ErrorKind::InvalidOperation))
            } else if args.len() == 0 && !objs[h as int].knows_method(n) {
                Some(Err(ErrorKind::InvalidOperation))
            } else {
                None
            },
            Some(Ok(_)) => Some(Err(ErrorKind::InvalidOperation)),
            other => other,
        },
    }
}

/// The values of the argument expressions, where each of them has one that
/// does not rest on an object.
pub open spec fn arg_values<O: Object>(
    args: Seq<ExprView>,
    binds: Seq<(Seq<char>, ValueView)>,
    objs: Seq<O>,
) -> Option<Seq<ValueView>> {
    if forall|j: int| 0 <= j < args.len() ==> (#[trigger] eval_spec(args[j], binds, objs) matches Some(Ok(_))) {
        Some(Seq::new(args.len(), |j: int| eval_spec(args[j], binds, objs)->Some_0->Ok_0))
    } else {
        None
    }
}

/// Where `e` invokes an object, directly or through a method, and the
/// receiver and every argument have values, `r` is what that object's `call`
/// or `call_method` returned for those values and the method's name.
pub open spec fn object_answers<O: Object>(
    e: ExprView,
    binds: Seq<(Seq<char>, ValueView)>,
    objs: Seq<O>,
    st: &State,
    r: Result<Value, Error>,
) -> bool {
    match e {
        ExprView::Call(f, args) => match (eval_spec(*f, binds, objs), arg_values(args, binds, objs)) {
            (Some(Ok(ValueView::Object(h))), Some(vals)) => h < objs.len() ==> exists|a: &[Value]|
                a@.len() == vals.len() && (forall|j: int| 0 <= j < vals.len() ==> a@[j]@ == vals[j])
                    && #[trigger] call_ensures(O::call, (&objs[h as int], st, a), r),
            _ => true,
        },
        ExprView::MethodCall(b, n, args) => match (eval_spec(*b, binds, objs), arg_values(args, binds, objs)) {
            (Some(Ok(ValueView::Object(h))), Some(vals)) => h < objs.len() ==> exists|nm: &str, a: &[Value]|
                nm@ == n && a@.len() == vals.len() && (forall|j: int| 0 <= j < vals.len() ==> a@[j]@ == vals[j])
                    && #[trigger] call_ensures(O::call_method, (&objs[h as int], st, nm, a), r),
            _ => true,
        },
        _ => true,
    }
}

fn arith(x: &Value, y: &Value, subtract: bool) -> (r: Result<Value, Error>)
    ensures
        outcome(r) == arith_spec(x@, y@, subtract),
{
    match (x, y) {
        (Value::Int(a), Value::Int(b)) => {
            let n = if subtract { a.checked_sub(*b) } else { a.checked_add(*b) };
            match n {
                Some(n) => Ok(Value::Int(n)),
                None => Err(Error::new(ErrorKind::InvalidOperation, "integer overflow".to_owned())),
            }
        },
        _ => Err(
            Error::new(
                ErrorKind::InvalidOperation,
                "tried to use an arithmetic operator on unsupported types".to_owned(),
            ),
        ),
    }
}

fn eval_args<O: Object>(e: &Expr, args: &Vec<Expr>, ctx: &Context<O>, state: &State) -> (r: Result<Vec<Value>, Error>)
    requires
        (e matches Expr::Call(_, a) && a == *args) || (e matches Expr::MethodCall(_, _, a) && a == *args),
    ensures
        r matches Ok(vs) ==> vs.len() == args.len(),
        r matches Ok(vs) ==> forall|j: int|
            0 <= j < args.len() ==> (eval_spec(#[trigger] args[j]@, ctx.bindings(), ctx.objects()) matches Some(Ok(x))
                ==> vs[j]@ == x),
        args.len() == 0 ==> r is Ok,
        r is Err ==> exists|j: int|
            0 <= j < args.len() && !(eval_spec(#[trigger] args[j]@, ctx.bindings(), ctx.objects()) matches Some(Ok(_))),
    decreases e, 0int,
{
    let mut out: Vec<Value> = Vec::new();
    let mut i: usize = 0;
    while i < args.len()
        invariant
            (e matches Expr::Call(_, a) && a == *args) || (e matches Expr::MethodCall(_, _, a) && a == *args),
            i <= args.len(),
            out.len() == i,
            forall|j: int|
                0 <= j < i ==> (eval_spec(#[trigger] args[j]@, ctx.bindings(), ctx.objects()) matches Some(Ok(x))
                    ==> out[j]@ == x),
        decreases args.len() - i,
    {
        let v = match eval_expr(&args[i], ctx, state) {
            Ok(v) => v,
            Err(err) => {
                assert(!(eval_spec(args[i as int]@, ctx.bindings(), ctx.objects()) matches Some(Ok(_))));
                return Err(err);
            },
        };
        out.push(v);
        i += 1;
    }
    Ok(out)
}

/// Evaluates `e` against the context. Object operations are dispatched to
/// the objects of the context's table.
pub fn eval_expr<O: Object>(e: &Expr, ctx: &Context<O>, state: &State) -> (r: Result<Value, Error>)
    ensures
        eval_spec(e@, ctx.bindings(), ctx.objects()) matches Some(x) ==> outcome(r) == x,
        object_answers(e@, ctx.bindings(), ctx.objects(), state, r),
    decreases e, 1int,
{
    proof {
        match e {
            Expr::Call(_, args) => lemma_expr_views_len(args@),
            Expr::MethodCall(_, _, args) => lemma_expr_views_len(args@),
            _ => {},
        }
    }
    match e {
        Expr::Int(i) => Ok(Value::Int(*i)),
        Expr::Str(s) => Ok(Value::String(s.clone())),
        Expr::Var(n) => match ctx.get(n.as_str()) {
            Some(v) => Ok(v),
            None => Err(Error::new(ErrorKind::UndefinedError, crate::error::join_text("undefined variable ", n.as_str()))),
        },
        Expr::Add(a, b) => {
            let x = eval_expr(a, ctx, state)?;
            let y = eval_expr(b, ctx, state)?;
            arith(&x, &y, false)
        },
        Expr::Sub(a, b) => {
            let x = eval_expr(a, ctx, state)?;
            let y = eval_expr(b, ctx, state)?;
            arith(&x, &y, true)
        },
        Expr::Attr(b, n) => {
            let x = eval_expr(b, ctx, state)?;
            Ok(ctx.attr_of(&x, n.as_str()))
        },
        Expr::Call(f, args) => {
            let x = eval_expr(f, ctx, state)?;
            match x {
                Value::Object(h) => match ctx.object(h) {
                    Some(o) => {
                        let vs = match eval_args(e, args, ctx, state) {
                            Ok(vs) => vs,
                            Err(err) => {
                                proof {
                                    lemma_expr_views_index(args@);
                                    let j = choose|j: int|
                                        0 <= j < args.len() && !(eval_spec(
                                            #[trigger] args[j]@,
                                            ctx.bindings(),
                                            ctx.objects(),
                                        ) matches Some(Ok(_)));
                                    assert(!(eval_spec(expr_views(args@)[j], ctx.bindings(), ctx.objects()) matches Some(
                                        Ok(_),
                                    )));
                                }
                                return Err(err);
                            },
                        };
                        let a = vs.as_slice();
                        let r = o.call(state, a);
                        proof {
                            lemma_expr_views_index(args@);
                            assert(call_ensures(O::call, (o, state, a), r));
                        }
                        r
                    },
                    None => Err(Error::new(ErrorKind::InvalidOperation, "dangling object handle".to_owned())),
                },
                _ => Err(Error::new(ErrorKind::InvalidOperation, "tried to call a value that is not an object".to_owned())),
            }
        },
        Expr::MethodCall(b, n, args) => {
            let x = eval_expr(b, ctx, state)?;
            match x {
                Value::Object(h) => match ctx.object(h) {
                    Some(o) => {
                        let vs = match eval_args(e, args, ctx, state) {
                            Ok(vs) => vs,
                            Err(err) => {
                                proof {
                                    lemma_expr_views_index(args@);
                                    let j = choose|j: int|
                                        0 <= j < args.len() && !(eval_spec(
                                            #[trigger] args[j]@,
                                            ctx.bindings(),
                                            ctx.objects(),
                                        ) matches Some(Ok(_)));
                                    assert(!(eval_spec(expr_views(args@)[j], ctx.bindings(), ctx.objects()) matches Some(
                                        Ok(_),
                                    )));
                                }
                                return Err(err);
                            },
                        };
                        let a = vs.as_slice();
                        let nm = n.as_str();
                        let r = o.call_method(state, nm, a);
                        proof {
                            lemma_expr_views_index(args@);
                            assert(call_ensures(O::call_method, (o, state, nm, a), r));
                        }
                        r
                    },
                    None => Err(Error::new(ErrorKind::InvalidOperation, "dangling object handle".to_owned())),
                },
                _ => Err(Error::new(ErrorKind::InvalidOperation, "tried to call a method of a value that is not an object".to_owned())),
            }
        },
    }
}

} // verus!
