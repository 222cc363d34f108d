use vstd::prelude::*;

use crate::context::Context;
use crate::error::{Error, ErrorKind};
use crate::expr::{eval_expr, eval_spec, object_answers, outcome, Expr, ExprView};
use crate::lexer::{lex, tokenize};
use crate::object::Object;
use crate::parser::{parse_expr, spec_parse};
use crate::state::State;
use crate::value::Value;

verus! {

/// An expression compiled once from source text. It holds no reference to any
/// context and can be evaluated any number of times.
#[derive(Debug)]
pub struct CompiledExpression {
    expr: Expr,
}

/// The expression that source text spells: its tokens, parsed whole. `None`
/// where the text is malformed.
pub open spec fn compile_spec(source: Seq<char>) -> Option<ExprView> {
    match lex(source) {
        Some(t) => spec_parse(t),
        None => None,
    }
}

/// Compiles source text into the expression that it spells. Malformed text
/// fails with `SyntaxError`; so does text that holds no expression at all.
pub fn compile_expression(source: &str) -> (r: Result<CompiledExpression, Error>)
    ensures
        r matches Err(e) ==> e.kind == ErrorKind::SyntaxError,
        match compile_spec(source@) {
            Some(ev) => (r matches Ok(c) && c.ast()@ == ev),
            None => r is Err,
        },
        source@.len() == 0 ==> r is Err,
{
    let toks = tokenize(source)?;
    proof {
        assert(crate::lexer::token_views(toks@).len() == toks@.len());
    }
    let (expr, p) = parse_expr(&toks, 0)?;
    if p < toks.len() {
        return Err(Error::new(ErrorKind::SyntaxError, "unexpected token after the expression".to_owned()));
    }
    Ok(CompiledExpression { expr })
}

impl CompiledExpression {
    /// The parsed expression.
    pub closed spec fn ast(&self) -> Expr {
        self.expr
    }

    /// Evaluates the expression against `ctx`. Where the outcome does not rest
    /// on what a host object returns, it is the one that `eval_spec` gives.
    /// Where the expression invokes an object, the object's answer, error
    /// included, is returned unchanged.
    pub fn eval<O: Object>(&self, ctx: &Context<O>) -> (r: Result<Value, Error>)
        ensures
            eval_spec(self.ast()@, ctx.bindings(), ctx.objects()) matches Some(x) ==> outcome(r) == x,
            exists|st: &State| #[trigger] object_answers(self.ast()@, ctx.bindings(), ctx.objects(), st, r),
    {
        let state = State::new("<expression>");
        let r = eval_expr(&self.expr, ctx, &state);
        assert(object_answers(self.ast()@, ctx.bindings(), ctx.objects(), &state, r));
        r
    }
}

/// Two compilations of one source text give expressions that evaluate alike
/// against equal contexts.
pub proof fn lemma_compilation_is_deterministic<O: Object>(
    source: Seq<char>,
    c1: CompiledExpression,
    c2: CompiledExpression,
    ctx1: Context<O>,
    ctx2: Context<O>,
)
    requires
        compile_spec(source) == Some(c1.ast()@),
        compile_spec(source) == Some(c2.ast()@),
        ctx1.bindings() == ctx2.bindings(),
        ctx1.objects() == ctx2.objects(),
    ensures
        c1.ast()@ == c2.ast()@,
        eval_spec(c1.ast()@, ctx1.bindings(), ctx1.objects()) == eval_spec(c2.ast()@, ctx2.bindings(), ctx2.objects()),
{
}

/// Evaluating one compiled expression against two contexts with the same
/// bindings and the same objects gives the same outcome: nothing of one
/// evaluation reaches the other.
pub proof fn lemma_contexts_do_not_interfere<O: Object>(
    c: CompiledExpression,
    ctx1: Context<O>,
    ctx2: Context<O>,
)
    requires
        ctx1.bindings() == ctx2.bindings(),
        ctx1.objects() == ctx2.objects(),
    ensures
        eval_spec(c.ast()@, ctx1.bindings(), ctx1.objects()) == eval_spec(c.ast()@, ctx2.bindings(), ctx2.objects()),
{
}

} // verus!
