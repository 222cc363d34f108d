use vstd::prelude::*;
use vstd::string::*;

use crate::error::{Error, ErrorKind};

verus! {

/// A token of expression source text.
#[derive(Debug)]
pub enum Token {
    Int(i64),
    Str(String),
    Name(String),
    Plus,
    Minus,
    Dot,
    LParen,
    RParen,
    Comma,
}

/// The model of a token.
pub enum TokenView {
    Int(int),
    Str(Seq<char>),
    Name(Seq<char>),
    Plus,
    Minus,
    Dot,
    LParen,
    RParen,
    Comma,
}

impl View for Token {
    type V = TokenView;

    open spec fn view(&self) -> TokenView {
        match self {
            Token::Int(i) => TokenView::Int(*i as int),
            Token::Str(s) => TokenView::Str(s@),
            Token::Name(n) => TokenView::Name(n@),
            Token::Plus => TokenView::Plus,
            Token::Minus => TokenView::Minus,
            Token::Dot => TokenView::Dot,
            Token::LParen => TokenView::LParen,
            Token::RParen => TokenView::RParen,
            Token::Comma => TokenView::Comma,
        }
    }
}

pub open spec fn is_digit(c: char) -> bool {
    '0' <= c <= '9'
}

pub open spec fn is_name_start(c: char) -> bool {
    ('a' <= c <= 'z') || ('A' <= c <= 'Z') || c == '_'
}

pub open spec fn is_name_char(c: char) -> bool {
    is_name_start(c) || is_digit(c)
}

pub open spec fn is_space(c: char) -> bool {
    c == ' ' || c == '\t' || c == '\n' || c == '\r'
}

/// The end of the run of digits that starts at `i`.
pub open spec fn digits_end(s: Seq<char>, i: int) -> int
    decreases s.len() - i,
{
    if 0 <= i < s.len() && is_digit(s[i]) {
        digits_end(s, i + 1)
    } else {
        i
    }
}

/// The end of the run of name characters that starts at `i`.
pub open spec fn name_end(s: Seq<char>, i: int) -> int
    decreases s.len() - i,
{
    if 0 <= i < s.len() && is_name_char(s[i]) {
        name_end(s, i + 1)
    } else {
        i
    }
}

/// The first `"` at or after `i`, or the end of the text.
pub open spec fn quote_end(s: Seq<char>, i: int) -> int
    decreases s.len() - i,
{
    if 0 <= i < s.len() && s[i] != '"' {
        quote_end(s, i + 1)
    } else {
        i
    }
}

/// The number that the decimal digits `s[i..j]` spell.
pub open spec fn digits_value(s: Seq<char>, i: int, j: int) -> int
    decreases j - i,
{
    if j <= i {
        0
    } else {
        digits_value(s, i, j - 1) * 10 + (s[j - 1] as int - '0' as int)
    }
}

pub open spec fn prepend(t: TokenView, rest: Option<Seq<TokenView>>) -> Option<Seq<TokenView>> {
    match rest {
        Some(ts) => Some(seq![t] + ts),
        None => None,
    }
}

/// The tokens of `s` from position `i` on, or `None` where the text is
/// malformed.
pub open spec fn lex_from(s: Seq<char>, i: int) -> Option<Seq<TokenView>>
    decreases s.len() - i,
{
    if i < 0 || i >= s.len() {
        Some(Seq::empty())
    } else {
        let c = s[i];
        if is_space(c) {
            lex_from(s, i + 1)
        } else if is_digit(c) {
            let j = digits_end(s, i + 1);
            let v = digits_value(s, i, j);
            if v > i64::MAX {
                None
            } else if j <= i || j > s.len() {
                None
            } else {
                prepend(TokenView::Int(v), lex_from(s, j))
            }
        } else if is_name_start(c) {
            let j = name_end(s, i + 1);
            if j <= i || j > s.len() {
                None
            } else {
                prepend(TokenView::Name(s.subrange(i, j)), lex_from(s, j))
            }
        } else if c == '"' {
            let j = quote_end(s, i + 1);
            if j >= s.len() || j <= i {
                None
            } else {
                prepend(TokenView::Str(s.subrange(i + 1, j)), lex_from(s, j + 1))
            }
        } else if c == '+' {
            prepend(TokenView::Plus, lex_from(s, i + 1))
        } else if c == '-' {
            prepend(TokenView::Minus, lex_from(s, i + 1))
        } else if c == '.' {
            prepend(TokenView::Dot, lex_from(s, i + 1))
        } else if c == '(' {
            prepend(TokenView::LParen, lex_from(s, i + 1))
        } else if c == ')' {
            prepend(TokenView::RParen, lex_from(s, i + 1))
        } else if c == ',' {
            prepend(TokenView::Comma, lex_from(s, i + 1))
        } else {
            None
        }
    }
}

/// The tokens of a whole text.
pub open spec fn lex(s: Seq<char>) -> Option<Seq<TokenView>> {
    lex_from(s, 0)
}

fn syntax_error(detail: &str) -> (r: Error)
    ensures
        r.kind == ErrorKind::SyntaxError,
{
    Error::new(ErrorKind::SyntaxError, detail.to_owned())
}

pub open spec fn token_views(t: Seq<Token>) -> Seq<TokenView> {
    t.map_values(|x: Token| x@)
}

pub open spec fn prepend_all(a: Seq<TokenView>, rest: Option<Seq<TokenView>>) -> Option<Seq<TokenView>> {
    match rest {
        Some(ts) => Some(a + ts),
        None => None,
    }
}

proof fn lemma_prepend_step(a: Seq<TokenView>, t: TokenView, rest: Option<Seq<TokenView>>)
    ensures
        prepend_all(a.push(t), rest) == prepend_all(a, prepend(t, rest)),
{
    if let Some(ts) = rest {
        assert(a.push(t) + ts =~= a + (seq![t] + ts));
    }
}

proof fn lemma_digits_value_grows(s: Seq<char>, i: int, a: int, b: int)
    requires
        i <= a <= b <= s.len(),
        0 <= i,
        forall|k: int| i <= k < b ==> is_digit(#[trigger] s[k]),
    ensures
        0 <= digits_value(s, i, a) <= digits_value(s, i, b),
    decreases b - a,
{
    if a < b {
        lemma_digits_value_grows(s, i, a, b - 1);
        lemma_digits_value_nonneg(s, i, b - 1);
    } else {
        lemma_digits_value_nonneg(s, i, a);
    }
}

proof fn lemma_digits_end(s: Seq<char>, k: int)
    requires
        0 <= k <= s.len(),
    ensures
        k <= digits_end(s, k) <= s.len(),
        forall|m: int| k <= m < digits_end(s, k) ==> is_digit(#[trigger] s[m]),
        digits_end(s, k) < s.len() ==> !is_digit(s[digits_end(s, k)]),
    decreases s.len() - k,
{
    if k < s.len() && is_digit(s[k]) {
        lemma_digits_end(s, k + 1);
    }
}

proof fn lemma_name_end(s: Seq<char>, k: int)
    requires
        0 <= k <= s.len(),
    ensures
        k <= name_end(s, k) <= s.len(),
    decreases s.len() - k,
{
    if k < s.len() && is_name_char(s[k]) {
        lemma_name_end(s, k + 1);
    }
}

proof fn lemma_quote_end(s: Seq<char>, k: int)
    requires
        0 <= k <= s.len(),
    ensures
        k <= quote_end(s, k) <= s.len(),
    decreases s.len() - k,
{
    if k < s.len() && s[k] != '"' {
        lemma_quote_end(s, k + 1);
    }
}

proof fn lemma_digits_value_nonneg(s: Seq<char>, i: int, a: int)
    requires
        0 <= i <= a <= s.len(),
        forall|k: int| i <= k < a ==> is_digit(#[trigger] s[k]),
    ensures
        0 <= digits_value(s, i, a),
    decreases a - i,
{
    if i < a {
        lemma_digits_value_nonneg(s, i, a - 1);
    }
}

/// Splits source text into tokens: exactly the tokens that `lex` gives, or
/// a syntax error where `lex` finds the text malformed (a character that no
/// token can start, an unterminated string literal, an integer literal beyond
/// `i64`).
pub fn tokenize(src: &str) -> (r: Result<Vec<Token>, Error>)
    ensures
        r matches Err(e) ==> e.kind == ErrorKind::SyntaxError,
        r matches Ok(t) ==> lex(src@) == Some(token_views(t@)),
        r is Err ==> lex(src@) is None,
{
    let ghost s = src@;
    let n = src.unicode_len();
    let mut out: Vec<Token> = Vec::new();
    let mut i: usize = 0;
    proof {
        assert(token_views(out@) =~= Seq::<TokenView>::empty());
        assert(prepend_all(Seq::empty(), lex_from(s, 0)) == lex_from(s, 0)) by {
            if let Some(ts) = lex_from(s, 0) {
                assert(Seq::<TokenView>::empty() + ts =~= ts);
            }
        }
    }
    while i < n
        invariant
            s == src@,
            n == s.len(),
            i <= n,
            lex(s) == prepend_all(token_views(out@), lex_from(s, i as int)),
        decreases n - i,
    {
        let c = src.get_char(i);
        let ghost before = token_views(out@);
        if c == ' ' || c == '\t' || c == '\n' || c == '\r' {
            i += 1;
        } else if '0' <= c && c <= '9' {
            let first = i;
            let mut v: i64 = (c as u32 - '0' as u32) as i64;
            i += 1;
            assert(digits_value(s, first as int, first + 1) == v) by {
                assert(digits_value(s, first as int, first as int) == 0);
            }
            while i < n
                invariant
                    s == src@,
                    n == s.len(),
                    first < i <= n,
                    is_digit(s[first as int]),
                    forall|k: int| first <= k < i ==> is_digit(#[trigger] s[k]),
                    v == digits_value(s, first as int, i as int),
                    digits_end(s, first + 1) == digits_end(s, i as int),
                    lex(s) == prepend_all(token_views(out@), lex_from(s, first as int)),
                ensures
                    first < i <= n,
                    v == digits_value(s, first as int, i as int),
                    digits_end(s, first + 1) == digits_end(s, i as int),
                    i == n || !is_digit(s[i as int]),
                decreases n - i,
            {
                let d = src.get_char(i);
                if !('0' <= d && d <= '9') {
                    break;
                }
                let digit = (d as u32 - '0' as u32) as i64;
                proof {
                    lemma_digits_end(s, i as int);
                    lemma_digits_end(s, i + 1);
                    assert(digits_end(s, i as int) == digits_end(s, i + 1));
                    lemma_digits_value_grows(s, first as int, i + 1, digits_end(s, i as int));
                    assert(digits_value(s, first as int, i + 1) == v * 10 + digit);
                }
                match v.checked_mul(10) {
                    Some(t) => match t.checked_add(digit) {
                        Some(u) => {
                            v = u;
                        },
                        None => {
                            return Err(syntax_error("integer literal out of range"));
                        },
                    },
                    None => {
                        return Err(syntax_error("integer literal out of range"));
                    },
                }
                i += 1;
            }
            proof {
                lemma_digits_end(s, i as int);
                assert(digits_end(s, i as int) == i);
            }
            out.push(Token::Int(v));
            proof {
                assert(token_views(out@) =~= before.push(TokenView::Int(v as int)));
                lemma_prepend_step(before, TokenView::Int(v as int), lex_from(s, i as int));
            }
        } else if ('a' <= c && c <= 'z') || ('A' <= c && c <= 'Z') || c == '_' {
            let start = i;
            i += 1;
            while i < n
                invariant
                    s == src@,
                    n == s.len(),
                    start < i <= n,
                    name_end(s, start + 1) == name_end(s, i as int),
                ensures
                    start < i <= n,
                    name_end(s, start + 1) == name_end(s, i as int),
                    i == n || !is_name_char(s[i as int]),
                decreases n - i,
            {
                let d = src.get_char(i);
                if !(('a' <= d && d <= 'z') || ('A' <= d && d <= 'Z') || d == '_' || ('0' <= d && d <= '9')) {
                    break;
                }
                i += 1;
            }
            proof {
                lemma_name_end(s, i as int);
                assert(name_end(s, i as int) == i);
            }
            out.push(Token::Name(src.substring_char(start, i).to_owned()));
            proof {
                let t = TokenView::Name(s.subrange(start as int, i as int));
                assert(token_views(out@) =~= before.push(t));
                lemma_prepend_step(before, t, lex_from(s, i as int));
            }
        } else if c == '"' {
            let start = i + 1;
            i += 1;
            while i < n && src.get_char(i) != '"'
                invariant
                    s == src@,
                    n == s.len(),
                    start <= i <= n,
                    quote_end(s, start as int) == quote_end(s, i as int),
                decreases n - i,
            {
                i += 1;
            }
            proof {
                lemma_quote_end(s, i as int);
            }
            if i >= n {
                return Err(syntax_error("unterminated string literal"));
            }
            assert(quote_end(s, i as int) == i);
            out.push(Token::Str(src.substring_char(start, i).to_owned()));
            proof {
                let t = TokenView::Str(s.subrange(start as int, i as int));
                assert(token_views(out@) =~= before.push(t));
                lemma_prepend_step(before, t, lex_from(s, i + 1));
            }
            i += 1;
        } else {
            let t = if c == '+' {
                Token::Plus
            } else if c == '-' {
                Token::Minus
            } else if c == '.' {
                Token::Dot
            } else if c == '(' {
                Token::LParen
            } else if c == ')' {
                Token::RParen
            } else if c == ',' {
                Token::Comma
            } else {
                return Err(syntax_error("unexpected character"));
            };
            let ghost tv = t@;
            out.push(t);
            proof {
                assert(token_views(out@) =~= before.push(tv));
                lemma_prepend_step(before, tv, lex_from(s, i + 1));
            }
            i += 1;
        }
    }
    proof {
        assert(token_views(out@) + Seq::<TokenView>::empty() =~= token_views(out@));
    }
    Ok(out)
}

} // verus!
