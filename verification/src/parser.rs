//! The parser: from tokens to one expression tree.
//!
//! One expression is read from the front of the tokens; what follows it is left unread. An
//! expression is a chain of operands joined by operators, grouped from left to right in the
//! order in which they stand, with no operator binding tighter than another. An operand is a
//! numeral, a name, a call of a function with its arguments in parentheses, or a `let`. Where
//! no operand can be read, the number zero stands in its place: the parser never fails.

use crate::ast::expr_views;
use crate::ast::lemma_expr_views_push;
use crate::ast::BinOp;
use crate::ast::Expr;
use crate::ast::ExprView;
use crate::token::views;
use crate::token::Token;
use crate::token::TokenView;
use vstd::prelude::*;

verus! {

/// The operator that a token stands for, if it stands for one.
pub open spec fn operator_of(t: TokenView) -> Option<BinOp> {
    match t {
        TokenView::Plus => Some(BinOp::Add),
        TokenView::Minus => Some(BinOp::Subtract),
        TokenView::Multiply => Some(BinOp::Multiply),
        TokenView::Divide => Some(BinOp::Divide),
        _ => None,
    }
}

/// How many tokens are left from the position `at` on.
pub open spec fn left(ts: Seq<TokenView>, at: int) -> nat {
    if 0 <= at <= ts.len() {
        (ts.len() - at) as nat
    } else {
        0
    }
}

/// The operand that starts with the token at `at`, and how many tokens it takes after that
/// first one.
///
/// - A numeral is a number, a name alone a variable.
/// - A name before an opening parenthesis is a call: the arguments follow, then one more
///   token, the closing parenthesis, is taken where one is left.
/// - `let`, a name and `=` bind the name to the expression that follows. After a `let`
///   without a name, or a name without `=`, the operand is zero, and the tokens looked at
///   are taken.
/// - Any other token is taken, and the operand is zero.
pub open spec fn parse_operand(ts: Seq<TokenView>, at: int) -> (ExprView, nat)
    decreases left(ts, at), 0nat,
{
    if at < 0 || at >= ts.len() {
        (ExprView::zero(), 0)
    } else {
        match ts[at] {
            TokenView::Let => {
                if at + 1 < ts.len() && ts[at + 1] is Identifier {
                    if at + 2 < ts.len() && ts[at + 2] is Assign {
                        let value = parse_expression(ts, at + 3);
                        (ExprView::Let(ts[at + 1]->Identifier_0, Box::new(value.0)), 2 + value.1)
                    } else if at + 2 < ts.len() {
                        (ExprView::zero(), 2)
                    } else {
                        (ExprView::zero(), 1)
                    }
                } else if at + 1 < ts.len() {
                    (ExprView::zero(), 1)
                } else {
                    (ExprView::zero(), 0)
                }
            },
            TokenView::Number(n) => (ExprView::Number(n), 0),
            TokenView::Identifier(name) => {
                if at + 1 < ts.len() && ts[at + 1] is OpenParen {
                    let arguments = parse_arguments(ts, at + 2);
                    let close: nat = if at + 2 + arguments.1 < ts.len() {
                        1
                    } else {
                        0
                    };
                    (ExprView::FunctionCall(name, arguments.0), 1 + arguments.1 + close)
                } else {
                    (ExprView::Variable(name), 0)
                }
            },
            _ => (ExprView::zero(), 0),
        }
    }
}

/// The chain that goes on from the operand `first` with the token at `at`, and how many
/// tokens it takes from there: as long as an operator follows, the operator and the operand
/// behind it are taken, and what was read so far becomes the left operand.
pub open spec fn parse_chain(ts: Seq<TokenView>, first: ExprView, at: int) -> (ExprView, nat)
    decreases left(ts, at), 1nat,
{
    if 0 <= at < ts.len() && operator_of(ts[at]) is Some {
        let op = operator_of(ts[at])->0;
        if at + 1 < ts.len() {
            let right = parse_operand(ts, at + 1);
            let joined = ExprView::BinaryOp(Box::new(first), op, Box::new(right.0));
            let rest = parse_chain(ts, joined, at + 2 + right.1);
            (rest.0, 2 + right.1 + rest.1)
        } else {
            (ExprView::BinaryOp(Box::new(first), op, Box::new(ExprView::zero())), 1)
        }
    } else {
        (first, 0)
    }
}

/// The expression that starts with the token at `at`, and how many tokens it takes. Where no
/// token is left, it is zero and takes none.
pub open spec fn parse_expression(ts: Seq<TokenView>, at: int) -> (ExprView, nat)
    decreases left(ts, at), 1nat,
{
    if at < 0 || at >= ts.len() {
        (ExprView::zero(), 0)
    } else {
        let first = parse_operand(ts, at);
        let whole = parse_chain(ts, first.0, at + 1 + first.1);
        (whole.0, 1 + first.1 + whole.1)
    }
}

/// The arguments of a call from the token at `at` on, and how many tokens they take: one
/// expression after the other, each with the comma behind it where there is one, until a
/// closing parenthesis stands next or no token is left.
pub open spec fn parse_arguments(ts: Seq<TokenView>, at: int) -> (Seq<ExprView>, nat)
    decreases left(ts, at), 1nat,
{
    if at < 0 || at >= ts.len() || ts[at] is CloseParen {
        (Seq::empty(), 0)
    } else {
        let first = parse_operand(ts, at);
        let whole = parse_chain(ts, first.0, at + 1 + first.1);
        let after = at + 1 + first.1 + whole.1;
        let comma: nat = if after < ts.len() && ts[after] is Comma {
            1
        } else {
            0
        };
        let rest = parse_arguments(ts, after + comma);
        (seq![whole.0] + rest.0, 1 + first.1 + whole.1 + comma + rest.1)
    }
}

/// The expression at the front of the tokens `ts`.
pub open spec fn parsed(ts: Seq<TokenView>) -> ExprView {
    parse_expression(ts, 0).0
}

/// The operator that `t` stands for, if it stands for one.
pub fn operator(t: &Token) -> (r: Option<BinOp>)
    ensures
        r == operator_of(t@),
{
    match t {
        Token::Plus => Some(BinOp::Add),
        Token::Minus => Some(BinOp::Subtract),
        Token::Multiply => Some(BinOp::Multiply),
        Token::Divide => Some(BinOp::Divide),
        _ => None,
    }
}

/// Reads the operand that starts at `at`; returns it with the position behind it.
fn read_operand(tokens: &Vec<Token>, at: usize) -> (r: (Expr, usize))
    requires
        at < tokens@.len(),
    ensures
        r.0@ == parse_operand(views(tokens@), at as int).0,
        r.1 == at + 1 + parse_operand(views(tokens@), at as int).1,
        r.1 <= tokens@.len(),
    decreases left(views(tokens@), at as int), 0nat,
{
    let ghost ts = views(tokens@);
    let n = tokens.len();
    match &tokens[at] {
        Token::Let => {
            if at + 1 < n {
                match &tokens[at + 1] {
                    Token::Identifier(name) => {
                        if at + 2 < n {
                            match &tokens[at + 2] {
                                Token::Assign => {
                                    let (value, next) = read_expression(tokens, at + 3);
                                    (Expr::Let(name.clone(), Box::new(value)), next)
                                },
                                _ => (Expr::zero(), at + 3),
                            }
                        } else {
                            (Expr::zero(), at + 2)
                        }
                    },
                    _ => (Expr::zero(), at + 2),
                }
            } else {
                (Expr::zero(), at + 1)
            }
        },
        Token::Number(n) => (Expr::Number(n.duplicate()), at + 1),
        Token::Identifier(name) => {
            let call = at + 1 < n && match &tokens[at + 1] {
                Token::OpenParen => true,
                _ => false,
            };
            if call {
                let (arguments, next) = read_arguments(tokens, at + 2);
                let close: usize = if next < n {
                    1
                } else {
                    0
                };
                (Expr::FunctionCall(name.clone(), arguments), next + close)
            } else {
                (Expr::Variable(name.clone()), at + 1)
            }
        },
        _ => (Expr::zero(), at + 1),
    }
}

/// Reads the chain that goes on from `first` at `at`; returns it with the position behind it.
fn read_chain(tokens: &Vec<Token>, first: Expr, at: usize) -> (r: (Expr, usize))
    requires
        at <= tokens@.len(),
    ensures
        r.0@ == parse_chain(views(tokens@), first@, at as int).0,
        r.1 == at + parse_chain(views(tokens@), first@, at as int).1,
        r.1 <= tokens@.len(),
    decreases left(views(tokens@), at as int), 1nat,
{
    let n = tokens.len();
    if at >= n {
        return (first, at);
    }
    match operator(&tokens[at]) {
        Some(op) => {
            if at + 1 < n {
                let (right, next) = read_operand(tokens, at + 1);
                read_chain(tokens, Expr::BinaryOp(Box::new(first), op, Box::new(right)), next)
            } else {
                (Expr::BinaryOp(Box::new(first), op, Box::new(Expr::zero())), at + 1)
            }
        },
        None => (first, at),
    }
}

/// Reads the expression that starts at `at`; returns it with the position behind it.
fn read_expression(tokens: &Vec<Token>, at: usize) -> (r: (Expr, usize))
    requires
        at <= tokens@.len(),
    ensures
        r.0@ == parse_expression(views(tokens@), at as int).0,
        r.1 == at + parse_expression(views(tokens@), at as int).1,
        r.1 <= tokens@.len(),
    decreases left(views(tokens@), at as int), 1nat,
{
    if at >= tokens.len() {
        return (Expr::zero(), at);
    }
    let (first, next) = read_operand(tokens, at);
    read_chain(tokens, first, next)
}

/// Reads the arguments of a call from `at` on; returns them with the position behind them.
fn read_arguments(tokens: &Vec<Token>, at: usize) -> (r: (Vec<Expr>, usize))
    requires
        at <= tokens@.len(),
    ensures
        expr_views(r.0@) == parse_arguments(views(tokens@), at as int).0,
        r.1 == at + parse_arguments(views(tokens@), at as int).1,
        r.1 <= tokens@.len(),
    decreases left(views(tokens@), at as int), 1nat,
{
    let ghost ts = views(tokens@);
    let n = tokens.len();
    let mut out: Vec<Expr> = Vec::new();
    let mut i: usize = at;
    loop
        invariant
            at <= i <= n == tokens@.len(),
            ts == views(tokens@),
            parse_arguments(ts, at as int).0 == expr_views(out@) + parse_arguments(
                ts,
                i as int,
            ).0,
            parse_arguments(ts, at as int).1 == (i - at) + parse_arguments(ts, i as int).1,
            left(ts, i as int) <= left(ts, at as int),
        ensures
            expr_views(out@) == parse_arguments(ts, at as int).0,
            i == at + parse_arguments(ts, at as int).1,
            i <= n,
        decreases n - i,
    {
        let done = i >= n || match &tokens[i] {
            Token::CloseParen => true,
            _ => false,
        };
        if done {
            break ;
        }
        let (first, next) = read_operand(tokens, i);
        let (whole, after) = read_chain(tokens, first, next);
        let comma: usize = if after < n && match &tokens[after] {
            Token::Comma => true,
            _ => false,
        } {
            1
        } else {
            0
        };
        proof {
            lemma_expr_views_push(out@, whole);
            let rest = parse_arguments(ts, after + comma);
            assert(expr_views(out@) + (seq![whole@] + rest.0) == expr_views(out@).push(whole@)
                + rest.0);
        }
        out.push(whole);
        i = after + comma;
    }
    (out, i)
}

/// The expression at the front of `tokens`. Tokens behind it are not read.
pub fn parse(tokens: &Vec<Token>) -> (r: Expr)
    ensures
        r@ == parsed(views(tokens@)),
{
    read_expression(tokens, 0).0
}

} // verus!
