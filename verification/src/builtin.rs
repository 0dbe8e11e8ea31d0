//! The built-in functions of the engine: their names, and what each makes of its argument.
//!
//! A built-in function is applied to one value. It either refuses the value, with the kind of
//! value it expected, or settles what is to be computed: which elementary function of which
//! number, a logarithm, a power, a point, or a text that is already final. That decision is
//! made here, on the kind and shape of the argument and on the sign of the operands; the
//! floating-point arithmetic that a [`Plan`] names is carried out by whoever holds the plan.

use crate::number::is_one_bits;
use crate::number::is_positive_bits;
use crate::number::one_bits;
use crate::number::positive_bits;
use crate::number::Number;
use crate::number::NumberView;
use crate::radix::convert;
use crate::radix::converted;
use vstd::prelude::*;

verus! {

/// A value as a function sees it: its kind, and for a tuple, which of its items are numbers.
#[derive(Debug, Clone, PartialEq)]
pub enum Datum {
    /// No value.
    Empty,
    /// A truth value.
    Boolean(bool),
    /// A number, whole or not, as the bit pattern of its 64-bit floating-point value.
    Number(u64),
    /// A text.
    Text(String),
    /// A tuple. An item that is a number stands as its bit pattern, any other item as `None`.
    Tuple(Vec<Option<u64>>),
}

/// What a [`Datum`] holds, over sequences.
pub enum DatumView {
    Empty,
    Boolean(bool),
    Number(u64),
    Text(Seq<char>),
    Tuple(Seq<Option<u64>>),
}

impl View for Datum {
    type V = DatumView;

    open spec fn view(&self) -> DatumView {
        match self {
            Datum::Empty => DatumView::Empty,
            Datum::Boolean(b) => DatumView::Boolean(*b),
            Datum::Number(bits) => DatumView::Number(*bits),
            Datum::Text(text) => DatumView::Text(text@),
            Datum::Tuple(items) => DatumView::Tuple(items@),
        }
    }
}

/// The kind of value that a function expected and did not get.
#[derive(Debug, Clone, Copy, PartialEq, Eq, Structural)]
pub enum ArgError {
    /// A number was expected, or a number within the function's domain.
    ExpectedNumber,
    /// A text was expected.
    ExpectedString,
    /// A tuple was expected, or a tuple of another length.
    ExpectedTuple,
}

/// The elementary functions of one number.
#[derive(Debug, Clone, Copy, PartialEq, Eq, Structural)]
pub enum Elementary {
    Sin,
    Cos,
    Tan,
    Asin,
    Acos,
    Atan,
    Sinh,
    Cosh,
    Tanh,
    Asinh,
    Acosh,
    Atanh,
    Exp,
}

/// Where a reciprocal is taken around an elementary function `f`.
#[derive(Debug, Clone, Copy, PartialEq, Eq, Structural)]
pub enum Reciprocal {
    /// Nowhere: `f(x)`.
    Nowhere,
    /// Of the argument: `f(1 / x)`.
    OfArgument,
    /// Of the result: `1 / f(x)`.
    OfResult,
}

/// What is to be computed: for a call that was accepted, or for the engine itself. Operands
/// are bit patterns.
#[derive(Debug, Clone, PartialEq)]
pub enum Plan {
    /// An elementary function of `argument`, with a reciprocal where one is named. No zero
    /// denominator is singled out: the division is the floating-point one.
    Apply { function: Elementary, reciprocal: Reciprocal, argument: u64 },
    /// The logarithm of `value` to the base `base`.
    Logarithm { value: u64, base: u64 },
    /// `base` raised to `exponent`.
    Power { base: u64, exponent: u64 },
    /// The point with these coordinates.
    Pair { x: u64, y: u64 },
    /// This text, with nothing left to compute.
    Text(String),
    /// The text that shows this number as the floating-point value that it is. No function
    /// asks for it; the engine does, for the numbers of a list that it keeps.
    Show(Number),
}

/// What a [`Plan`] holds, over sequences.
pub enum PlanView {
    Apply { function: Elementary, reciprocal: Reciprocal, argument: u64 },
    Logarithm { value: u64, base: u64 },
    Power { base: u64, exponent: u64 },
    Pair { x: u64, y: u64 },
    Text(Seq<char>),
    Show(NumberView),
}

impl View for Plan {
    type V = PlanView;

    open spec fn view(&self) -> PlanView {
        match self {
            Plan::Apply { function, reciprocal, argument } => PlanView::Apply {
                function: *function,
                reciprocal: *reciprocal,
                argument: *argument,
            },
            Plan::Logarithm { value, base } => PlanView::Logarithm { value: *value, base: *base },
            Plan::Power { base, exponent } => PlanView::Power { base: *base, exponent: *exponent },
            Plan::Pair { x, y } => PlanView::Pair { x: *x, y: *y },
            Plan::Text(text) => PlanView::Text(text@),
            Plan::Show(number) => PlanView::Show(number@),
        }
    }
}

/// How a function treats its argument.
#[derive(Debug, Clone, Copy, PartialEq, Eq, Structural)]
pub enum Shape {
    /// One number goes to an elementary function, with a reciprocal where one is named.
    Unary(Elementary, Reciprocal),
    /// A pair of numbers, value and base, goes to the logarithm.
    Logarithm,
    /// A tuple of one number goes to the exponential function.
    Exponential,
    /// A pair of numbers, base and exponent, goes to the power.
    Power,
    /// A text is read as a whole number in one base and written in another.
    Convert { from: u32, to: u32 },
    /// A tuple that begins with two numbers becomes a point.
    Point,
}

/// The built-in functions.
#[derive(Debug, Clone, Copy, PartialEq, Eq, Structural)]
pub enum Builtin {
    Sin,
    Cos,
    Tan,
    Cosec,
    Sec,
    Cot,
    Asin,
    Acos,
    Atan,
    Acosec,
    Asec,
    Acot,
    Sinh,
    Cosh,
    Tanh,
    Cosech,
    Sech,
    Coth,
    Asinh,
    Acosh,
    Atanh,
    Acosech,
    Asech,
    Acoth,
    Log,
    Exp,
    Pow,
    DecimalToBinary,
    BinaryToDecimal,
    DecimalToHex,
    HexToDecimal,
    Point,
}

impl Builtin {
    /// The name under which the function is called.
    pub open spec fn name_text(self) -> Seq<char> {
        match self {
            Builtin::Sin => "sin"@,
            Builtin::Cos => "cos"@,
            Builtin::Tan => "tan"@,
            Builtin::Cosec => "cosec"@,
            Builtin::Sec => "sec"@,
            Builtin::Cot => "cot"@,
            Builtin::Asin => "asin"@,
            Builtin::Acos => "acos"@,
            Builtin::Atan => "atan"@,
            Builtin::Acosec => "acosec"@,
            Builtin::Asec => "asec"@,
            Builtin::Acot => "acot"@,
            Builtin::Sinh => "sinh"@,
            Builtin::Cosh => "cosh"@,
            Builtin::Tanh => "tanh"@,
            Builtin::Cosech => "cosech"@,
            Builtin::Sech => "sech"@,
            Builtin::Coth => "coth"@,
            Builtin::Asinh => "asinh"@,
            Builtin::Acosh => "acosh"@,
            Builtin::Atanh => "atanh"@,
            Builtin::Acosech => "acosech"@,
            Builtin::Asech => "asech"@,
            Builtin::Acoth => "acoth"@,
            Builtin::Log => "log"@,
            Builtin::Exp => "exp"@,
            Builtin::Pow => "pow"@,
            Builtin::DecimalToBinary => "decimal_to_binary"@,
            Builtin::BinaryToDecimal => "binary_to_decimal"@,
            Builtin::DecimalToHex => "decimal_to_hex"@,
            Builtin::HexToDecimal => "hex_to_decimal"@,
            Builtin::Point => "Point"@,
        }
    }

    /// How the function treats its argument. The functions named with `cosec`, `sec` and `cot`
    /// are the reciprocals of those named with `sin`, `cos` and `tan`; a leading `a` marks the
    /// inverse function, which for these three takes the reciprocal of its argument instead.
    pub open spec fn shape_spec(self) -> Shape {
        match self {
            Builtin::Sin => Shape::Unary(Elementary::Sin, Reciprocal::Nowhere),
            Builtin::Cos => Shape::Unary(Elementary::Cos, Reciprocal::Nowhere),
            Builtin::Tan => Shape::Unary(Elementary::Tan, Reciprocal::Nowhere),
            Builtin::Cosec => Shape::Unary(Elementary::Sin, Reciprocal::OfResult),
            Builtin::Sec => Shape::Unary(Elementary::Cos, Reciprocal::OfResult),
            Builtin::Cot => Shape::Unary(Elementary::Tan, Reciprocal::OfResult),
            Builtin::Asin => Shape::Unary(Elementary::Asin, Reciprocal::Nowhere),
            Builtin::Acos => Shape::Unary(Elementary::Acos, Reciprocal::Nowhere),
            Builtin::Atan => Shape::Unary(Elementary::Atan, Reciprocal::Nowhere),
            Builtin::Acosec => Shape::Unary(Elementary::Asin, Reciprocal::OfArgument),
            Builtin::Asec => Shape::Unary(Elementary::Acos, Reciprocal::OfArgument),
            Builtin::Acot => Shape::Unary(Elementary::Atan, Reciprocal::OfArgument),
            Builtin::Sinh => Shape::Unary(Elementary::Sinh, Reciprocal::Nowhere),
            Builtin::Cosh => Shape::Unary(Elementary::Cosh, Reciprocal::Nowhere),
            Builtin::Tanh => Shape::Unary(Elementary::Tanh, Reciprocal::Nowhere),
            Builtin::Cosech => Shape::Unary(Elementary::Sinh, Reciprocal::OfResult),
            Builtin::Sech => Shape::Unary(Elementary::Cosh, Reciprocal::OfResult),
            Builtin::Coth => Shape::Unary(Elementary::Tanh, Reciprocal::OfResult),
            Builtin::Asinh => Shape::Unary(Elementary::Asinh, Reciprocal::Nowhere),
            Builtin::Acosh => Shape::Unary(Elementary::Acosh, Reciprocal::Nowhere),
            Builtin::Atanh => Shape::Unary(Elementary::Atanh, Reciprocal::Nowhere),
            Builtin::Acosech => Shape::Unary(Elementary::Asinh, Reciprocal::OfArgument),
            Builtin::Asech => Shape::Unary(Elementary::Acosh, Reciprocal::OfArgument),
            Builtin::Acoth => Shape::Unary(Elementary::Atanh, Reciprocal::OfArgument),
            Builtin::Log => Shape::Logarithm,
            Builtin::Exp => Shape::Exponential,
            Builtin::Pow => Shape::Power,
            Builtin::DecimalToBinary => Shape::Convert { from: 10, to: 2 },
            Builtin::BinaryToDecimal => Shape::Convert { from: 2, to: 10 },
            Builtin::DecimalToHex => Shape::Convert { from: 10, to: 16 },
            Builtin::HexToDecimal => Shape::Convert { from: 16, to: 10 },
            Builtin::Point => Shape::Point,
        }
    }

    /// What the function makes of `argument`.
    pub open spec fn planned(self, argument: DatumView) -> Result<PlanView, ArgError> {
        planned_for(self.shape_spec(), argument)
    }

    /// The name under which the function is called.
    pub fn name(&self) -> (r: &'static str)
        ensures
            r@ == self.name_text(),
    {
        match self {
            Builtin::Sin => "sin",
            Builtin::Cos => "cos",
            Builtin::Tan => "tan",
            Builtin::Cosec => "cosec",
            Builtin::Sec => "sec",
            Builtin::Cot => "cot",
            Builtin::Asin => "asin",
            Builtin::Acos => "acos",
            Builtin::Atan => "atan",
            Builtin::Acosec => "acosec",
            Builtin::Asec => "asec",
            Builtin::Acot => "acot",
            Builtin::Sinh => "sinh",
            Builtin::Cosh => "cosh",
            Builtin::Tanh => "tanh",
            Builtin::Cosech => "cosech",
            Builtin::Sech => "sech",
            Builtin::Coth => "coth",
            Builtin::Asinh => "asinh",
            Builtin::Acosh => "acosh",
            Builtin::Atanh => "atanh",
            Builtin::Acosech => "acosech",
            Builtin::Asech => "asech",
            Builtin::Acoth => "acoth",
            Builtin::Log => "log",
            Builtin::Exp => "exp",
            Builtin::Pow => "pow",
            Builtin::DecimalToBinary => "decimal_to_binary",
            Builtin::BinaryToDecimal => "binary_to_decimal",
            Builtin::DecimalToHex => "decimal_to_hex",
            Builtin::HexToDecimal => "hex_to_decimal",
            Builtin::Point => "Point",
        }
    }

    /// How the function treats its argument.
    pub fn shape(&self) -> (r: Shape)
        ensures
            r == self.shape_spec(),
    {
        match self {
            Builtin::Sin => Shape::Unary(Elementary::Sin, Reciprocal::Nowhere),
            Builtin::Cos => Shape::Unary(Elementary::Cos, Reciprocal::Nowhere),
            Builtin::Tan => Shape::Unary(Elementary::Tan, Reciprocal::Nowhere),
            Builtin::Cosec => Shape::Unary(Elementary::Sin, Reciprocal::OfResult),
            Builtin::Sec => Shape::Unary(Elementary::Cos, Reciprocal::OfResult),
            Builtin::Cot => Shape::Unary(Elementary::Tan, Reciprocal::OfResult),
            Builtin::Asin => Shape::Unary(Elementary::Asin, Reciprocal::Nowhere),
            Builtin::Acos => Shape::Unary(Elementary::Acos, Reciprocal::Nowhere),
            Builtin::Atan => Shape::Unary(Elementary::Atan, Reciprocal::Nowhere),
            Builtin::Acosec => Shape::Unary(Elementary::Asin, Reciprocal::OfArgument),
            Builtin::Asec => Shape::Unary(Elementary::Acos, Reciprocal::OfArgument),
            Builtin::Acot => Shape::Unary(Elementary::Atan, Reciprocal::OfArgument),
            Builtin::Sinh => Shape::Unary(Elementary::Sinh, Reciprocal::Nowhere),
            Builtin::Cosh => Shape::Unary(Elementary::Cosh, Reciprocal::Nowhere),
            Builtin::Tanh => Shape::Unary(Elementary::Tanh, Reciprocal::Nowhere),
            Builtin::Cosech => Shape::Unary(Elementary::Sinh, Reciprocal::OfResult),
            Builtin::Sech => Shape::Unary(Elementary::Cosh, Reciprocal::OfResult),
            Builtin::Coth => Shape::Unary(Elementary::Tanh, Reciprocal::OfResult),
            Builtin::Asinh => Shape::Unary(Elementary::Asinh, Reciprocal::Nowhere),
            Builtin::Acosh => Shape::Unary(Elementary::Acosh, Reciprocal::Nowhere),
            Builtin::Atanh => Shape::Unary(Elementary::Atanh, Reciprocal::Nowhere),
            Builtin::Acosech => Shape::Unary(Elementary::Asinh, Reciprocal::OfArgument),
            Builtin::Asech => Shape::Unary(Elementary::Acosh, Reciprocal::OfArgument),
            Builtin::Acoth => Shape::Unary(Elementary::Atanh, Reciprocal::OfArgument),
            Builtin::Log => Shape::Logarithm,
            Builtin::Exp => Shape::Exponential,
            Builtin::Pow => Shape::Power,
            Builtin::DecimalToBinary => Shape::Convert { from: 10, to: 2 },
            Builtin::BinaryToDecimal => Shape::Convert { from: 2, to: 10 },
            Builtin::DecimalToHex => Shape::Convert { from: 10, to: 16 },
            Builtin::HexToDecimal => Shape::Convert { from: 16, to: 10 },
            Builtin::Point => Shape::Point,
        }
    }

    /// What the function makes of `argument`: the plan of what is to be computed, or the kind
    /// of value that it expected instead.
    pub fn plan(&self, argument: &Datum) -> (r: Result<Plan, ArgError>)
        ensures
            match r {
                Ok(plan) => self.planned(argument@) == Ok::<PlanView, ArgError>(plan@),
                Err(e) => self.planned(argument@) == Err::<PlanView, ArgError>(e),
            },
    {
        match self.shape() {
            Shape::Unary(function, reciprocal) => plan_unary(function, reciprocal, argument),
            Shape::Logarithm => plan_logarithm(argument),
            Shape::Exponential => plan_exponential(argument),
            Shape::Power => plan_power(argument),
            Shape::Convert { from, to } => plan_convert(from, to, argument),
            Shape::Point => plan_point(argument),
        }
    }

    /// Every built-in function, once, in the order in which an engine registers them.
    pub fn all() -> (r: Vec<Builtin>)
        ensures
            r@ == all_builtins(),
    {
        let list: Vec<Builtin> = vec![
            Builtin::Sin,
            Builtin::Cos,
            Builtin::Tan,
            Builtin::Cosec,
            Builtin::Sec,
            Builtin::Cot,
            Builtin::Asin,
            Builtin::Acos,
            Builtin::Atan,
            Builtin::Acosec,
            Builtin::Asec,
            Builtin::Acot,
            Builtin::Sinh,
            Builtin::Cosh,
            Builtin::Tanh,
            Builtin::Cosech,
            Builtin::Sech,
            Builtin::Coth,
            Builtin::Asinh,
            Builtin::Acosh,
            Builtin::Atanh,
            Builtin::Acosech,
            Builtin::Asech,
            Builtin::Acoth,
            Builtin::Log,
            Builtin::Exp,
            Builtin::Pow,
            Builtin::DecimalToBinary,
            Builtin::BinaryToDecimal,
            Builtin::DecimalToHex,
            Builtin::HexToDecimal,
            Builtin::Point,
        ];
        assert(list@ =~= all_builtins());
        list
    }
}

/// Every built-in function, once, in the order in which an engine registers them.
pub open spec fn all_builtins() -> Seq<Builtin> {
    seq![
        Builtin::Sin,
        Builtin::Cos,
        Builtin::Tan,
        Builtin::Cosec,
        Builtin::Sec,
        Builtin::Cot,
        Builtin::Asin,
        Builtin::Acos,
        Builtin::Atan,
        Builtin::Acosec,
        Builtin::Asec,
        Builtin::Acot,
        Builtin::Sinh,
        Builtin::Cosh,
        Builtin::Tanh,
        Builtin::Cosech,
        Builtin::Sech,
        Builtin::Coth,
        Builtin::Asinh,
        Builtin::Acosh,
        Builtin::Atanh,
        Builtin::Acosech,
        Builtin::Asech,
        Builtin::Acoth,
        Builtin::Log,
        Builtin::Exp,
        Builtin::Pow,
        Builtin::DecimalToBinary,
        Builtin::BinaryToDecimal,
        Builtin::DecimalToHex,
        Builtin::HexToDecimal,
        Builtin::Point,
    ]
}

impl Builtin {
    /// The place of the function among all of them.
    pub open spec fn place(self) -> int {
        match self {
            Builtin::Sin => 0,
            Builtin::Cos => 1,
            Builtin::Tan => 2,
            Builtin::Cosec => 3,
            Builtin::Sec => 4,
            Builtin::Cot => 5,
            Builtin::Asin => 6,
            Builtin::Acos => 7,
            Builtin::Atan => 8,
            Builtin::Acosec => 9,
            Builtin::Asec => 10,
            Builtin::Acot => 11,
            Builtin::Sinh => 12,
            Builtin::Cosh => 13,
            Builtin::Tanh => 14,
            Builtin::Cosech => 15,
            Builtin::Sech => 16,
            Builtin::Coth => 17,
            Builtin::Asinh => 18,
            Builtin::Acosh => 19,
            Builtin::Atanh => 20,
            Builtin::Acosech => 21,
            Builtin::Asech => 22,
            Builtin::Acoth => 23,
            Builtin::Log => 24,
            Builtin::Exp => 25,
            Builtin::Pow => 26,
            Builtin::DecimalToBinary => 27,
            Builtin::BinaryToDecimal => 28,
            Builtin::DecimalToHex => 29,
            Builtin::HexToDecimal => 30,
            Builtin::Point => 31,
        }
    }
}

/// Every built-in function is among all of them, at its place.
pub proof fn lemma_every_builtin_is_listed(builtin: Builtin)
    ensures
        0 <= builtin.place() < all_builtins().len(),
        all_builtins()[builtin.place()] == builtin,
        exists|i: int| 0 <= i < all_builtins().len() && all_builtins()[i] == builtin,
{
    assert(all_builtins()[builtin.place()] == builtin);
}

/// What tells the names of the built-in functions apart: the length of a name, its second
/// character and its last two.
spec fn name_mark(name: Seq<char>) -> (nat, char, char, char) {
    (name.len(), name[1], name[name.len() - 2], name[name.len() - 1])
}

/// No two built-in functions have the same name.
pub proof fn law_names_differ(a: Builtin, b: Builtin)
    requires
        a != b,
    ensures
        a.name_text() != b.name_text(),
{
    reveal_strlit("sin");
    reveal_strlit("cos");
    reveal_strlit("tan");
    reveal_strlit("cosec");
    reveal_strlit("sec");
    reveal_strlit("cot");
    reveal_strlit("asin");
    reveal_strlit("acos");
    reveal_strlit("atan");
    reveal_strlit("acosec");
    reveal_strlit("asec");
    reveal_strlit("acot");
    reveal_strlit("sinh");
    reveal_strlit("cosh");
    reveal_strlit("tanh");
    reveal_strlit("cosech");
    reveal_strlit("sech");
    reveal_strlit("coth");
    reveal_strlit("asinh");
    reveal_strlit("acosh");
    reveal_strlit("atanh");
    reveal_strlit("acosech");
    reveal_strlit("asech");
    reveal_strlit("acoth");
    reveal_strlit("log");
    reveal_strlit("exp");
    reveal_strlit("pow");
    reveal_strlit("decimal_to_binary");
    reveal_strlit("binary_to_decimal");
    reveal_strlit("decimal_to_hex");
    reveal_strlit("hex_to_decimal");
    reveal_strlit("Point");
    assert(name_mark(a.name_text()) != name_mark(b.name_text()));
}

/// The logarithm is defined where value and base are greater than zero and the base is not one.
pub open spec fn in_logarithm_domain(value: u64, base: u64) -> bool {
    is_positive_bits(base) && is_positive_bits(value) && !is_one_bits(base)
}

/// What a function of the given shape makes of `argument`.
///
/// - An elementary function takes a number, and expects a number of anything else.
/// - The logarithm takes a pair of numbers within its domain, and expects a number of anything
///   else: of another kind of value, of a tuple of another length, of an item that is no
///   number, and of a pair outside the domain.
/// - The exponential function takes a tuple of one number. It expects a number of a tuple of
///   one other item, and a tuple of anything else.
/// - The power takes a pair of numbers. It expects a number of a pair with another item, and a
///   tuple of anything else.
/// - A conversion takes a text. It expects a number of a text that spells no whole number in
///   its base, and a text of anything else.
/// - A point takes a tuple of two or more items of which the first two are numbers. It expects
///   a number of a tuple whose first or second item is none, and a tuple of anything else.
pub open spec fn planned_for(shape: Shape, argument: DatumView) -> Result<PlanView, ArgError> {
    match shape {
        Shape::Unary(function, reciprocal) => match argument {
            DatumView::Number(x) => Ok(PlanView::Apply { function, reciprocal, argument: x }),
            _ => Err(ArgError::ExpectedNumber),
        },
        Shape::Logarithm => match argument {
            DatumView::Tuple(items) => if items.len() == 2 && items[0] is Some && items[1] is Some
                && in_logarithm_domain(items[0]->0, items[1]->0) {
                Ok(PlanView::Logarithm { value: items[0]->0, base: items[1]->0 })
            } else {
                Err(ArgError::ExpectedNumber)
            },
            _ => Err(ArgError::ExpectedNumber),
        },
        Shape::Exponential => match argument {
            DatumView::Tuple(items) => if items.len() != 1 {
                Err(ArgError::ExpectedTuple)
            } else if items[0] is Some {
                Ok(
                    PlanView::Apply {
                        function: Elementary::Exp,
                        reciprocal: Reciprocal::Nowhere,
                        argument: items[0]->0,
                    },
                )
            } else {
                Err(ArgError::ExpectedNumber)
            },
            _ => Err(ArgError::ExpectedTuple),
        },
        Shape::Power => match argument {
            DatumView::Tuple(items) => if items.len() != 2 {
                Err(ArgError::ExpectedTuple)
            } else if items[0] is Some && items[1] is Some {
                Ok(PlanView::Power { base: items[0]->0, exponent: items[1]->0 })
            } else {
                Err(ArgError::ExpectedNumber)
            },
            _ => Err(ArgError::ExpectedTuple),
        },
        Shape::Convert { from, to } => match argument {
            DatumView::Text(text) => match converted(text, from as int, to as int) {
                Some(out) => Ok(PlanView::Text(out)),
                None => Err(ArgError::ExpectedNumber),
            },
            _ => Err(ArgError::ExpectedString),
        },
        Shape::Point => match argument {
            DatumView::Tuple(items) => if items.len() < 2 {
                Err(ArgError::ExpectedTuple)
            } else if items[0] is Some && items[1] is Some {
                Ok(PlanView::Pair { x: items[0]->0, y: items[1]->0 })
            } else {
                Err(ArgError::ExpectedNumber)
            },
            _ => Err(ArgError::ExpectedTuple),
        },
    }
}

/// What an elementary function makes of `argument`.
pub fn plan_unary(function: Elementary, reciprocal: Reciprocal, argument: &Datum) -> (r: Result<
    Plan,
    ArgError,
>)
    ensures
        match r {
            Ok(plan) => planned_for(Shape::Unary(function, reciprocal), argument@) == Ok::<
                PlanView,
                ArgError,
            >(plan@),
            Err(e) => planned_for(Shape::Unary(function, reciprocal), argument@) == Err::<
                PlanView,
                ArgError,
            >(e),
        },
{
    match argument {
        Datum::Number(x) => Ok(Plan::Apply { function, reciprocal, argument: *x }),
        _ => Err(ArgError::ExpectedNumber),
    }
}

/// What the logarithm makes of `argument`.
pub fn plan_logarithm(argument: &Datum) -> (r: Result<Plan, ArgError>)
    ensures
        match r {
            Ok(plan) => planned_for(Shape::Logarithm, argument@) == Ok::<PlanView, ArgError>(
                plan@,
            ),
            Err(e) => planned_for(Shape::Logarithm, argument@) == Err::<PlanView, ArgError>(e),
        },
{
    match argument {
        Datum::Tuple(items) => {
            if items.len() != 2 {
                return Err(ArgError::ExpectedNumber);
            }
            let base = match items[1] {
                Some(bits) => bits,
                None => {
                    return Err(ArgError::ExpectedNumber);
                },
            };
            let value = match items[0] {
                Some(bits) => bits,
                None => {
                    return Err(ArgError::ExpectedNumber);
                },
            };
            if positive_bits(base) && positive_bits(value) && !one_bits(base) {
                Ok(Plan::Logarithm { value, base })
            } else {
                Err(ArgError::ExpectedNumber)
            }
        },
        _ => Err(ArgError::ExpectedNumber),
    }
}

/// What the exponential function makes of `argument`.
pub fn plan_exponential(argument: &Datum) -> (r: Result<Plan, ArgError>)
    ensures
        match r {
            Ok(plan) => planned_for(Shape::Exponential, argument@) == Ok::<PlanView, ArgError>(
                plan@,
            ),
            Err(e) => planned_for(Shape::Exponential, argument@) == Err::<PlanView, ArgError>(e),
        },
{
    match argument {
        Datum::Tuple(items) => {
            if items.len() != 1 {
                return Err(ArgError::ExpectedTuple);
            }
            match items[0] {
                Some(bits) => Ok(
                    Plan::Apply {
                        function: Elementary::Exp,
                        reciprocal: Reciprocal::Nowhere,
                        argument: bits,
                    },
                ),
                None => Err(ArgError::ExpectedNumber),
            }
        },
        _ => Err(ArgError::ExpectedTuple),
    }
}

/// What the power makes of `argument`.
pub fn plan_power(argument: &Datum) -> (r: Result<Plan, ArgError>)
    ensures
        match r {
            Ok(plan) => planned_for(Shape::Power, argument@) == Ok::<PlanView, ArgError>(plan@),
            Err(e) => planned_for(Shape::Power, argument@) == Err::<PlanView, ArgError>(e),
        },
{
    match argument {
        Datum::Tuple(items) => {
            if items.len() != 2 {
                return Err(ArgError::ExpectedTuple);
            }
            match (items[0], items[1]) {
                (Some(base), Some(exponent)) => Ok(Plan::Power { base, exponent }),
                _ => Err(ArgError::ExpectedNumber),
            }
        },
        _ => Err(ArgError::ExpectedTuple),
    }
}

/// What a conversion from the base `from` to the base `to` makes of `argument`.
pub fn plan_convert(from: u32, to: u32, argument: &Datum) -> (r: Result<Plan, ArgError>)
    requires
        2 <= from <= 36,
        2 <= to <= 36,
    ensures
        match r {
            Ok(plan) => planned_for(Shape::Convert { from, to }, argument@) == Ok::<
                PlanView,
                ArgError,
            >(plan@),
            Err(e) => planned_for(Shape::Convert { from, to }, argument@) == Err::<
                PlanView,
                ArgError,
            >(e),
        },
{
    match argument {
        Datum::Text(text) => match convert(text.as_str(), from, to) {
            Some(out) => Ok(Plan::Text(out)),
            None => Err(ArgError::ExpectedNumber),
        },
        _ => Err(ArgError::ExpectedString),
    }
}

/// What the point function makes of `argument`.
pub fn plan_point(argument: &Datum) -> (r: Result<Plan, ArgError>)
    ensures
        match r {
            Ok(plan) => planned_for(Shape::Point, argument@) == Ok::<PlanView, ArgError>(plan@),
            Err(e) => planned_for(Shape::Point, argument@) == Err::<PlanView, ArgError>(e),
        },
{
    match argument {
        Datum::Tuple(items) => {
            if items.len() < 2 {
                return Err(ArgError::ExpectedTuple);
            }
            match (items[0], items[1]) {
                (Some(x), Some(y)) => Ok(Plan::Pair { x, y }),
                _ => Err(ArgError::ExpectedNumber),
            }
        },
        _ => Err(ArgError::ExpectedTuple),
    }
}

} // verus!
