//! The expression tree.

use crate::number::Number;
use crate::number::NumberView;
use vstd::prelude::*;

verus! {

/// The four operators between two operands.
#[derive(Debug, Clone, Copy, PartialEq, Eq, Structural)]
pub enum BinOp {
    Add,
    Subtract,
    Multiply,
    Divide,
}

/// An expression. A tree is built once for a line and never changed.
#[derive(Debug, PartialEq)]
pub enum Expr {
    /// A number.
    Number(Number),
    /// The value that a name is bound to, or zero where it is bound to none.
    Variable(String),
    /// The left operand, the operator, the right operand.
    BinaryOp(Box<Expr>, BinOp, Box<Expr>),
    /// A function by its name, and the arguments of the call in order.
    FunctionCall(String, Vec<Expr>),
    /// The binding of a name to the value of an expression; its own value is that value.
    Let(String, Box<Expr>),
}

/// What an [`Expr`] holds, over sequences.
pub enum ExprView {
    Number(NumberView),
    Variable(Seq<char>),
    BinaryOp(Box<ExprView>, BinOp, Box<ExprView>),
    FunctionCall(Seq<char>, Seq<ExprView>),
    Let(Seq<char>, Box<ExprView>),
}

/// The views of the expressions of `list`, in order.
pub open spec fn expr_views(list: Seq<Expr>) -> Seq<ExprView>
    decreases list,
{
    if list.len() == 0 {
        Seq::empty()
    } else {
        expr_views(list.drop_last()).push(list.last().model())
    }
}

impl Expr {
    /// The tree over sequences of characters.
    pub open spec fn model(self) -> ExprView
        decreases self,
    {
        match self {
            Expr::Number(n) => ExprView::Number(n@),
            Expr::Variable(name) => ExprView::Variable(name@),
            Expr::BinaryOp(left, op, right) => ExprView::BinaryOp(
                Box::new(left.model()),
                op,
                Box::new(right.model()),
            ),
            Expr::FunctionCall(name, arguments) => ExprView::FunctionCall(
                name@,
                expr_views(arguments@),
            ),
            Expr::Let(name, value) => ExprView::Let(name@, Box::new(value.model())),
        }
    }
}

impl View for Expr {
    type V = ExprView;

    open spec fn view(&self) -> ExprView {
        self.model()
    }
}

impl ExprView {
    /// The node that stands where nothing could be read: the number zero.
    pub open spec fn zero() -> ExprView {
        ExprView::Number(NumberView::Bits(crate::number::ZERO_BITS))
    }
}

impl Expr {
    /// The node that stands where nothing could be read: the number zero.
    pub fn zero() -> (r: Expr)
        ensures
            r@ == ExprView::zero(),
    {
        Expr::Number(Number::zero())
    }
}

/// The views of a list that grew by one expression.
pub(crate) proof fn lemma_expr_views_push(list: Seq<Expr>, e: Expr)
    ensures
        expr_views(list.push(e)) == expr_views(list).push(e@),
{
    assert(list.push(e).drop_last() == list);
}

/// The views of a list are as many as the list, and each is the view of its expression.
pub(crate) proof fn lemma_expr_views_index(list: Seq<Expr>)
    ensures
        expr_views(list).len() == list.len(),
        forall|i: int| 0 <= i < list.len() ==> (#[trigger] expr_views(list)[i]) == list[i]@,
    decreases list.len(),
{
    if list.len() > 0 {
        lemma_expr_views_index(list.drop_last());
    }
}

} // verus!
