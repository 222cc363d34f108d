use vstd::prelude::*;

use crate::error::{Error, ErrorKind};
use crate::expr::{expr_views, lemma_expr_views_push, Expr, ExprView};
use crate::lexer::{token_views, Token, TokenView};

verus! {

// Grammar, by precedence:
//   expr    := postfix (('+' | '-') postfix)*
//   postfix := primary ('.' name | '.' name '(' args | '(' args)*
//   args    := ')' | expr (',' expr)* ')'
//   primary := int | string | name | '(' expr ')'
//
// Each function parses from `pos` and returns what it read with the position
// after it, which lies strictly beyond `pos`.


/// `expr` from `pos`: the expression and the position after it.
pub open spec fn spec_expr(t: Seq<TokenView>, pos: int) -> Option<(ExprView, int)>
    decreases t.len() - pos, 2int,
{
    if pos < 0 || pos > t.len() {
        None
    } else {
        match spec_postfix(t, pos) {
            Some((e, q)) => if pos < q <= t.len() {
                spec_expr_tail(t, e, q)
            } else {
                None
            },
            None => None,
        }
    }
}

/// The `('+' | '-') postfix` repetitions after `lhs`, which ends at `p`.
pub open spec fn spec_expr_tail(t: Seq<TokenView>, lhs: ExprView, p: int) -> Option<(ExprView, int)>
    decreases t.len() - p, 4int,
{
    if 0 <= p < t.len() && (t[p] is Plus || t[p] is Minus) {
        match spec_postfix(t, p + 1) {
            Some((rhs, q)) => if p + 1 < q <= t.len() {
                let e = if t[p] is Minus {
                    ExprView::Sub(Box::new(lhs), Box::new(rhs))
                } else {
                    ExprView::Add(Box::new(lhs), Box::new(rhs))
                };
                spec_expr_tail(t, e, q)
            } else {
                None
            },
            None => None,
        }
    } else {
        Some((lhs, p))
    }
}

/// `args` from `pos`, just after a `(`: the arguments and the position after
/// the closing `)`.
pub open spec fn spec_args(t: Seq<TokenView>, pos: int) -> Option<(Seq<ExprView>, int)>
    decreases t.len() - pos, 3int,
{
    if pos < 0 || pos > t.len() {
        None
    } else if pos < t.len() && t[pos] is RParen {
        Some((Seq::empty(), pos + 1))
    } else {
        match spec_expr(t, pos) {
            Some((a, q)) => if pos < q <= t.len() {
                spec_args_tail(t, seq![a], q)
            } else {
                None
            },
            None => None,
        }
    }
}

/// The `',' expr` repetitions and the closing `)` after the arguments `args`.
pub open spec fn spec_args_tail(t: Seq<TokenView>, args: Seq<ExprView>, p: int) -> Option<(Seq<ExprView>, int)>
    decreases t.len() - p, 4int,
{
    if p < 0 || p >= t.len() {
        None
    } else if t[p] is RParen {
        Some((args, p + 1))
    } else if t[p] is Comma {
        match spec_expr(t, p + 1) {
            Some((a, q)) => if p + 1 < q <= t.len() {
                spec_args_tail(t, args.push(a), q)
            } else {
                None
            },
            None => None,
        }
    } else {
        None
    }
}

/// `postfix` from `pos`.
pub open spec fn spec_postfix(t: Seq<TokenView>, pos: int) -> Option<(ExprView, int)>
    decreases t.len() - pos, 1int,
{
    if pos < 0 || pos > t.len() {
        None
    } else {
        match spec_primary(t, pos) {
            Some((e, q)) => if pos < q <= t.len() {
                spec_postfix_tail(t, e, q)
            } else {
                None
            },
            None => None,
        }
    }
}

/// The attribute accesses and calls after `e`, which ends at `p`.
pub open spec fn spec_postfix_tail(t: Seq<TokenView>, e: ExprView, p: int) -> Option<(ExprView, int)>
    decreases t.len() - p, 4int,
{
    if 0 <= p < t.len() && t[p] is Dot {
        if p + 1 >= t.len() {
            None
        } else if let TokenView::Name(n) = t[p + 1] {
            if p + 2 < t.len() && t[p + 2] is LParen {
                match spec_args(t, p + 3) {
                    Some((args, q)) => if p + 3 < q <= t.len() {
                        spec_postfix_tail(t, ExprView::MethodCall(Box::new(e), n, args), q)
                    } else {
                        None
                    },
                    None => None,
                }
            } else {
                spec_postfix_tail(t, ExprView::Attr(Box::new(e), n), p + 2)
            }
        } else {
            None
        }
    } else if 0 <= p < t.len() && t[p] is LParen {
        match spec_args(t, p + 1) {
            Some((args, q)) => if p + 1 < q <= t.len() {
                spec_postfix_tail(t, ExprView::Call(Box::new(e), args), q)
            } else {
                None
            },
            None => None,
        }
    } else {
        Some((e, p))
    }
}

/// `primary` from `pos`.
pub open spec fn spec_primary(t: Seq<TokenView>, pos: int) -> Option<(ExprView, int)>
    decreases t.len() - pos, 0int,
{
    if pos < 0 || pos >= t.len() {
        None
    } else {
        match t[pos] {
            TokenView::Int(i) => Some((ExprView::Int(i), pos + 1)),
            TokenView::Str(s) => Some((ExprView::Str(s), pos + 1)),
            TokenView::Name(n) => Some((ExprView::Var(n), pos + 1)),
            TokenView::LParen => match spec_expr(t, pos + 1) {
                Some((e, q)) => if pos + 1 < q < t.len() && t[q] is RParen {
                    Some((e, q + 1))
                } else {
                    None
                },
                None => None,
            },
            _ => None,
        }
    }
}

/// The expression that a whole token sequence spells, if it spells one.
pub open spec fn spec_parse(t: Seq<TokenView>) -> Option<ExprView> {
    match spec_expr(t, 0) {
        Some((e, q)) => if q == t.len() {
            Some(e)
        } else {
            None
        },
        None => None,
    }
}

fn syntax_error(detail: &str) -> (r: Error)
    ensures
        r.kind == ErrorKind::SyntaxError,
{
    Error::new(ErrorKind::SyntaxError, detail.to_owned())
}

pub fn parse_expr(toks: &Vec<Token>, pos: usize) -> (r: Result<(Expr, usize), Error>)
    requires
        pos <= toks.len(),
    ensures
        r matches Ok((_, p)) ==> pos < p <= toks.len(),
        r matches Err(e) ==> e.kind == ErrorKind::SyntaxError,
        match spec_expr(token_views(toks@), pos as int) {
            Some((ev, q)) => (r matches Ok((e, p)) && e@ == ev && p == q),
            None => r is Err,
        },
    decreases toks.len() - pos, 2int,
{
    let ghost t = token_views(toks@);
    let (first, q) = parse_postfix(toks, pos)?;
    let mut lhs = first;
    let mut p = q;
    while p < toks.len()
        invariant
            t == token_views(toks@),
            pos < p <= toks.len(),
            spec_expr(t, pos as int) == spec_expr_tail(t, lhs@, p as int),
        ensures
            pos < p <= toks.len(),
            spec_expr(t, pos as int) == Some((lhs@, p as int)),
        decreases toks.len() - p,
    {
        let subtract = match &toks[p] {
            Token::Plus => false,
            Token::Minus => true,
            _ => {
                break;
            },
        };
        let (rhs, q) = parse_postfix(toks, p + 1)?;
        lhs = if subtract {
            Expr::Sub(Box::new(lhs), Box::new(rhs))
        } else {
            Expr::Add(Box::new(lhs), Box::new(rhs))
        };
        p = q;
    }
    Ok((lhs, p))
}

fn parse_args(toks: &Vec<Token>, pos: usize) -> (r: Result<(Vec<Expr>, usize), Error>)
    requires
        pos <= toks.len(),
    ensures
        r matches Ok((_, p)) ==> pos < p <= toks.len(),
        r matches Err(e) ==> e.kind == ErrorKind::SyntaxError,
        match spec_args(token_views(toks@), pos as int) {
            Some((avs, q)) => (r matches Ok((args, p)) && expr_views(args@) == avs && p == q),
            None => r is Err,
        },
    decreases toks.len() - pos, 3int,
{
    let ghost t = token_views(toks@);
    let mut args: Vec<Expr> = Vec::new();
    if pos < toks.len() {
        if let Token::RParen = &toks[pos] {
            proof {
                assert(expr_views(args@) =~= Seq::<ExprView>::empty());
            }
            return Ok((args, pos + 1));
        }
    }
    let (first, q) = parse_expr(toks, pos)?;
    proof {
        lemma_expr_views_push(args@, first);
        assert(expr_views(args@) =~= Seq::<ExprView>::empty());
    }
    args.push(first);
    let mut p = q;
    loop
        invariant
            t == token_views(toks@),
            pos < p <= toks.len(),
            spec_args(t, pos as int) == spec_args_tail(t, expr_views(args@), p as int),
        decreases toks.len() - p,
    {
        if p >= toks.len() {
            return Err(syntax_error("unexpected end of input in argument list"));
        }
        match &toks[p] {
            Token::RParen => {
                return Ok((args, p + 1));
            },
            Token::Comma => {
                let (arg, q) = parse_expr(toks, p + 1)?;
                proof {
                    lemma_expr_views_push(args@, arg);
                }
                args.push(arg);
                p = q;
            },
            _ => {
                return Err(syntax_error("expected ',' or ')' in argument list"));
            },
        }
    }
}

fn parse_postfix(toks: &Vec<Token>, pos: usize) -> (r: Result<(Expr, usize), Error>)
    requires
        pos <= toks.len(),
    ensures
        r matches Ok((_, p)) ==> pos < p <= toks.len(),
        r matches Err(e) ==> e.kind == ErrorKind::SyntaxError,
        match spec_postfix(token_views(toks@), pos as int) {
            Some((ev, q)) => (r matches Ok((e, p)) && e@ == ev && p == q),
            None => r is Err,
        },
    decreases toks.len() - pos, 1int,
{
    let ghost t = token_views(toks@);
    let (first, q) = parse_primary(toks, pos)?;
    let mut e = first;
    let mut p = q;
    while p < toks.len()
        invariant
            t == token_views(toks@),
            pos < p <= toks.len(),
            spec_postfix(t, pos as int) == spec_postfix_tail(t, e@, p as int),
        ensures
            pos < p <= toks.len(),
            spec_postfix(t, pos as int) == Some((e@, p as int)),
        decreases toks.len() - p,
    {
        match &toks[p] {
            Token::Dot => {
                if p + 1 >= toks.len() {
                    return Err(syntax_error("expected a name after '.'"));
                }
                let name = match &toks[p + 1] {
                    Token::Name(n) => n.clone(),
                    _ => {
                        return Err(syntax_error("expected a name after '.'"));
                    },
                };
                let mut is_call = false;
                if p + 2 < toks.len() {
                    if let Token::LParen = &toks[p + 2] {
                        is_call = true;
                    }
                }
                if is_call {
                    let (args, q) = parse_args(toks, p + 3)?;
                    e = Expr::MethodCall(Box::new(e), name, args);
                    p = q;
                } else {
                    e = Expr::Attr(Box::new(e), name);
                    p = p + 2;
                }
            },
            Token::LParen => {
                let (args, q) = parse_args(toks, p + 1)?;
                e = Expr::Call(Box::new(e), args);
                p = q;
            },
            _ => {
                break;
            },
        }
    }
    Ok((e, p))
}

fn parse_primary(toks: &Vec<Token>, pos: usize) -> (r: Result<(Expr, usize), Error>)
    requires
        pos <= toks.len(),
    ensures
        r matches Ok((_, p)) ==> pos < p <= toks.len(),
        r matches Err(e) ==> e.kind == ErrorKind::SyntaxError,
        match spec_primary(token_views(toks@), pos as int) {
            Some((ev, q)) => (r matches Ok((e, p)) && e@ == ev && p == q),
            None => r is Err,
        },
    decreases toks.len() - pos, 0int,
{
    if pos >= toks.len() {
        return Err(syntax_error("unexpected end of input"));
    }
    match &toks[pos] {
        Token::Int(i) => Ok((Expr::Int(*i), pos + 1)),
        Token::Str(s) => Ok((Expr::Str(s.clone()), pos + 1)),
        Token::Name(n) => Ok((Expr::Var(n.clone()), pos + 1)),
        Token::LParen => {
            let (inner, q) = parse_expr(toks, pos + 1)?;
            if q < toks.len() {
                if let Token::RParen = &toks[q] {
                    return Ok((inner, q + 1));
                }
            }
            Err(syntax_error("expected ')'"))
        },
        _ => Err(syntax_error("unexpected token")),
    }
}

} // verus!
