//! The engine: one line in, one result or failure out.
//!
//! A line of the form `name = List(items)` is decoded here, and the list is kept under its
//! name as a text. Every other line goes to the `evalexpr` evaluator, with the engine's context
//! of variables and functions; what comes back is turned into a result of the engine's own.
//!
//! The engine makes and installs its functions itself. Each of them decides here what is to
//! be computed of its argument, and hands the plan to the one thing that the engine is given
//! when it is made: the caller's way of carrying a plan out in floating point. The evaluator's
//! own functions are switched off, so that a name calls what the engine installed or nothing.

use crate::builtin::all_builtins;
use crate::builtin::law_names_differ;
use crate::builtin::lemma_every_builtin_is_listed;
use crate::builtin::ArgError;
use crate::builtin::Builtin;
use crate::builtin::Datum;
use crate::builtin::DatumView;
use crate::builtin::Plan;
use crate::builtin::PlanView;
use crate::decoder::decode_list;
use crate::decoder::decoded;
use crate::number::Number;
use crate::number::NumberView;
use crate::roundtrip::is_item;
use crate::roundtrip::lemma_items_are_items;
use crate::text::append;
use crate::text::chars_of;
use crate::text::same_text;
use crate::text::skip_trailing;
use crate::text::string_of;
use crate::text::trim;
use crate::text::trim_end;
use crate::text::trimmed;
use crate::value::can_be_listed;
use crate::value::comma_space;
use crate::value::join;
use crate::value::joined;
use crate::value::lemma_result_views_index;
use crate::value::number_text;
use crate::value::text_views;
use crate::value::truth_text;
use crate::value::write_number;
use crate::value::write_truth;
use crate::value::Array;
use crate::value::Point;
use crate::value::PointView;
use crate::value::ReplError;
use crate::value::ReplResult;
use crate::value::ReplResultView;
use evalexpr::Context;
use evalexpr::ContextWithMutableFunctions;
use evalexpr::ContextWithMutableVariables;
use evalexpr::EvalexprError;
use evalexpr::Function;
use evalexpr::HashMapContext;
use evalexpr::IterateVariablesContext;
use evalexpr::Value;
use regex::Regex;
use vstd::prelude::*;

verus! {

/// The context of `evalexpr` that keeps its variables and functions in hash maps.
#[verifier::external_type_specification]
#[verifier::external_body]
pub struct ExHashMapContext(HashMapContext);

/// A value of `evalexpr`.
#[verifier::external_type_specification]
#[verifier::external_body]
pub struct ExValue(Value);

/// An error of `evalexpr`.
#[verifier::external_type_specification]
#[verifier::external_body]
pub struct ExEvalexprError(EvalexprError);

/// A function that an `evalexpr` context can hold.
#[verifier::external_type_specification]
#[verifier::external_body]
pub struct ExFunction(Function);

/// A compiled regular expression of `regex`.
#[verifier::external_type_specification]
#[verifier::external_body]
pub struct ExRegex(Regex);

/// What `Regex::new` makes of a pattern: the compiled pattern, or `None` where it refuses.
pub uninterp spec fn compiled_pattern(pattern: Seq<char>) -> Option<Regex>;

/// What `Regex::captures` finds of `pattern` in `text`: the texts of the groups with the
/// indices `first` and `second` in the leftmost match, where there is a match and both groups
/// took part in it.
pub uninterp spec fn captured_pair(pattern: Regex, text: Seq<char>, first: usize, second: usize) -> Option<
    (Seq<char>, Seq<char>),
>;

/// The value that a context holds under a name: what `HashMapContext::get_value` gives.
pub uninterp spec fn variable(context: HashMapContext, name: Seq<char>) -> Option<Value>;

/// The function that a context holds under a name: the one that
/// `HashMapContext::call_function` calls for the name; `None` where it finds none there.
pub uninterp spec fn function_at(context: HashMapContext, name: Seq<char>) -> Option<Function>;

/// Whether a call of a function with an argument, by `Function::call`, can give `result`.
pub uninterp spec fn call_gives(function: Function, argument: Value, result: Result<
    Value,
    EvalexprError,
>) -> bool;

/// Whether the evaluator's own functions are switched off in a context: what
/// `HashMapContext::are_builtin_functions_disabled` gives.
pub uninterp spec fn own_functions_off(context: HashMapContext) -> bool;

/// The number that a value is, as the bit pattern of what `Value::as_number` gives; `None`
/// where that method refuses the value.
pub uninterp spec fn value_number(value: Value) -> Option<u64>;

/// The text that a value is: what `Value::as_string` gives; `None` where it refuses.
pub uninterp spec fn value_text(value: Value) -> Option<Seq<char>>;

/// The truth value that a value is: what `Value::as_boolean` gives; `None` where it refuses.
pub uninterp spec fn value_truth(value: Value) -> Option<bool>;

/// The items of the tuple that a value is: what `Value::as_tuple` gives; `None` where it
/// refuses.
pub uninterp spec fn value_items(value: Value) -> Option<Seq<Value>>;

/// The text that a context holds under a name, where it holds a text there.
pub open spec fn text_variable(context: HashMapContext, name: Seq<char>) -> Option<Seq<char>> {
    match variable(context, name) {
        Some(value) => value_text(value),
        None => None,
    }
}

/// Whether a context holds under a name a value that is no text.
pub open spec fn other_variable(context: HashMapContext, name: Seq<char>) -> bool {
    variable(context, name) matches Some(value) && value_text(value) is None
}

/// What the engine sees of a value of the evaluator: a number, else a text, else a truth
/// value, else a tuple, of which each item counts as the number that it is or as none, and
/// else no value.
pub open spec fn seen(value: Value) -> DatumView {
    if value_number(value) is Some {
        DatumView::Number(value_number(value)->0)
    } else if value_text(value) is Some {
        DatumView::Text(value_text(value)->0)
    } else if value_truth(value) is Some {
        DatumView::Boolean(value_truth(value)->0)
    } else if value_items(value) is Some {
        DatumView::Tuple(value_items(value)->0.map_values(|item: Value| value_number(item)))
    } else {
        DatumView::Empty
    }
}

/// The pattern of a list literal: a name of word characters, `=`, `List`, and the items in
/// parentheses up to the end of the line, with space at will around `=` and behind `List`.
pub open spec fn list_pattern_text() -> Seq<char> {
    "^(\\w+)\\s*=\\s*List\\s*\\((.*)\\)$"@
}

/// Compiles a pattern with `Regex::new`; `None` where the pattern is refused.
#[verifier::external_body]
fn compile(pattern: &str) -> (r: Option<Regex>)
    ensures
        r == compiled_pattern(pattern@),
{
    Regex::new(pattern).ok()
}

/// Matches `text` with `Regex::captures` and returns the texts of two groups of the match,
/// each by `Captures::get` and `Match::as_str`.
#[verifier::external_body]
fn capture_pair(pattern: &Regex, text: &str, first: usize, second: usize) -> (r: Option<
    (String, String),
>)
    ensures
        match r {
            Some(pair) => captured_pair(*pattern, text@, first, second) == Some(
                (pair.0@, pair.1@),
            ),
            None => captured_pair(*pattern, text@, first, second) is None,
        },
{
    match pattern.captures(text) {
        Some(found) => match (found.get(first), found.get(second)) {
            (Some(a), Some(b)) => Some((a.as_str().to_string(), b.as_str().to_string())),
            _ => None,
        },
        None => None,
    }
}

/// An empty context, by `HashMapContext::new`: it holds no variable and no function, and the
/// evaluator's own functions are on.
#[verifier::external_body]
fn fresh_context() -> (r: HashMapContext)
    ensures
        forall|name: Seq<char>| #[trigger] variable(r, name) is None,
        forall|name: Seq<char>| #[trigger] function_at(r, name) is None,
        !own_functions_off(r),
{
    HashMapContext::new()
}

/// Switches the evaluator's own functions off or on, with `set_builtin_functions_disabled`. A
/// `HashMapContext` notes the choice and answers `Ok`; what it holds stays as it is.
#[verifier::external_body]
fn switch_own_functions(context: &mut HashMapContext, off: bool) -> (r: Result<(), EvalexprError>)
    ensures
        r is Ok,
        own_functions_off(*final(context)) == off,
        forall|name: Seq<char>|
            #[trigger] variable(*final(context), name) == variable(*old(context), name),
        forall|name: Seq<char>|
            #[trigger] function_at(*final(context), name) == function_at(*old(context), name),
{
    context.set_builtin_functions_disabled(off)
}

/// Evaluates a line with `evalexpr::eval_with_context_mut`, in a context in which the
/// evaluator's own functions are off: a name then calls a function of the context or none.
/// What comes back depends on the line, on what the context holds and on the functions
/// installed in it; nothing is promised of it here. An evaluation can bind variables; the
/// functions of the context and the switch stay as they are.
#[verifier::external_body]
fn evaluate(input: &str, context: &mut HashMapContext) -> (r: Result<Value, EvalexprError>)
    requires
        own_functions_off(*old(context)),
    ensures
        own_functions_off(*final(context)),
        forall|name: Seq<char>|
            #[trigger] function_at(*final(context), name) == function_at(*old(context), name),
{
    evalexpr::eval_with_context_mut(input, context)
}

/// Puts a function into the context under a name, with `set_function` of
/// `ContextWithMutableFunctions`. A `HashMapContext` puts the function into its map of
/// functions and answers `Ok`, whatever the name and the function: it then holds that function
/// under the name. The other functions, the variables and the switch stay as they are.
#[verifier::external_body]
fn set_function(context: &mut HashMapContext, name: &str, function: Function) -> (r: Result<
    (),
    EvalexprError,
>)
    ensures
        r is Ok,
        function_at(*final(context), name@) == Some(function),
        own_functions_off(*final(context)) == own_functions_off(*old(context)),
        forall|other: Seq<char>|
            other != name@ ==> #[trigger] function_at(*final(context), other) == function_at(
                *old(context),
                other,
            ),
        forall|other: Seq<char>|
            #[trigger] variable(*final(context), other) == variable(*old(context), other),
{
    context.set_function(name.to_string(), function)
}

/// Binds a name to a value in the context, with `set_value` of `ContextWithMutableVariables`.
/// A `HashMapContext` accepts a name that it does not hold, and then holds the value under
/// it; where it refuses, it stays as it is. The other variables, the functions and the
/// switch stay as they are.
#[verifier::external_body]
fn set_value(context: &mut HashMapContext, name: &str, value: Value) -> (r: Result<
    (),
    EvalexprError,
>)
    ensures
        variable(*old(context), name@) is None ==> r is Ok,
        r is Ok ==> variable(*final(context), name@) == Some(value),
        r is Err ==> variable(*final(context), name@) == variable(*old(context), name@),
        own_functions_off(*final(context)) == own_functions_off(*old(context)),
        forall|other: Seq<char>|
            other != name@ ==> #[trigger] variable(*final(context), other) == variable(
                *old(context),
                other,
            ),
        forall|other: Seq<char>|
            #[trigger] function_at(*final(context), other) == function_at(*old(context), other),
{
    context.set_value(name.to_string(), value)
}

/// Binds a name to a text in the context, with `set_value` of `ContextWithMutableVariables`.
/// A `HashMapContext` refuses just where it holds under the name a value of another kind than
/// the new one, here a value that is no text, and then stays as it is; else it accepts, and
/// holds the text under the name. The other variables, the functions and the switch stay as
/// they are.
#[verifier::external_body]
fn set_text(context: &mut HashMapContext, name: &str, text: &str) -> (r: Result<(), EvalexprError>)
    ensures
        r is Ok <==> !other_variable(*old(context), name@),
        r is Ok ==> text_variable(*final(context), name@) == Some(text@),
        r is Err ==> variable(*final(context), name@) == variable(*old(context), name@),
        own_functions_off(*final(context)) == own_functions_off(*old(context)),
        forall|other: Seq<char>|
            other != name@ ==> #[trigger] variable(*final(context), other) == variable(
                *old(context),
                other,
            ),
        forall|other: Seq<char>|
            #[trigger] function_at(*final(context), other) == function_at(*old(context), other),
{
    context.set_value(name.to_string(), Value::String(text.to_string()))
}

/// The variables of a context, each name with its value, by `iter_variables` of
/// `IterateVariablesContext`, which walks the context's map of variables: every variable is
/// among them, no name twice, in no order that could be told beforehand.
#[verifier::external_body]
fn variables_of(context: &HashMapContext) -> (r: Vec<(String, Value)>)
    ensures
        forall|i: int|
            0 <= i < r@.len() ==> variable(*context, (#[trigger] r@[i]).0@) == Some(r@[i].1),
        forall|i: int, j: int|
            0 <= i < j < r@.len() ==> (#[trigger] r@[i]).0@ != (#[trigger] r@[j]).0@,
        forall|name: Seq<char>|
            (#[trigger] variable(*context, name)) is Some ==> holds_name(r@, 0, name),
{
    context.iter_variables().collect()
}

/// Takes every variable out of the context, with `HashMapContext::clear_variables`. The
/// functions and the switch stay as they are.
#[verifier::external_body]
fn clear_variables(context: &mut HashMapContext)
    ensures
        forall|name: Seq<char>| #[trigger] variable(*final(context), name) is None,
        own_functions_off(*final(context)) == own_functions_off(*old(context)),
        forall|name: Seq<char>|
            #[trigger] function_at(*final(context), name) == function_at(*old(context), name),
{
    context.clear_variables()
}

/// The bit pattern of the number that a value is, by `Value::as_number`, which takes a whole
/// number as the floating-point number of the same value; `None` where it is no number.
#[verifier::external_body]
fn number_of(value: &Value) -> (r: Option<u64>)
    ensures
        r == value_number(*value),
{
    match value.as_number() {
        Ok(x) => Some(x.to_bits()),
        Err(_) => None,
    }
}

/// The text that a value is, by `Value::as_string`; `None` where it is no text.
#[verifier::external_body]
fn text_of(value: &Value) -> (r: Option<String>)
    ensures
        match r {
            Some(text) => value_text(*value) == Some(text@),
            None => value_text(*value) is None,
        },
{
    value.as_string().ok()
}

/// The truth value that a value is, by `Value::as_boolean`; `None` where it is none.
#[verifier::external_body]
fn truth_of(value: &Value) -> (r: Option<bool>)
    ensures
        r == value_truth(*value),
{
    value.as_boolean().ok()
}

/// The items of the tuple that a value is, by `Value::as_tuple`; `None` where it is no tuple.
#[verifier::external_body]
fn items_of(value: &Value) -> (r: Option<Vec<Value>>)
    ensures
        match r {
            Some(items) => value_items(*value) == Some(items@),
            None => value_items(*value) is None,
        },
{
    value.as_tuple().ok()
}

/// The evaluator's error for a value that should be a number and is none, by
/// `EvalexprError::expected_number`, with no value named as the one that was found.
#[verifier::external_body]
fn number_expected() -> (r: EvalexprError) {
    EvalexprError::expected_number(Value::Empty)
}

/// The evaluator's error for a value that should be a text and is none, by
/// `EvalexprError::expected_string`, with no value named as the one that was found.
#[verifier::external_body]
fn text_expected() -> (r: EvalexprError) {
    EvalexprError::expected_string(Value::Empty)
}

/// The evaluator's error for a value that should be a tuple and is none, by
/// `EvalexprError::expected_tuple`, with no value named as the one that was found.
#[verifier::external_body]
fn tuple_expected() -> (r: EvalexprError) {
    EvalexprError::expected_tuple(Value::Empty)
}

/// The value of the evaluator that is the text `text`, by `Value::String`: it is that text, and
/// no number.
#[verifier::external_body]
fn text_value(text: String) -> (r: Value)
    ensures
        value_text(r) == Some(text@),
        value_number(r) is None,
{
    Value::String(text)
}

/// The function that the engine installs for a built-in, by `Function::new`, which keeps what
/// it is given and calls it whenever the function is called: a call with an argument gives
/// what [`call_builtin`] gives for the built-in, the argument and the caller's way of carrying
/// out.
#[verifier::external_body]
fn function_of<F: Fn(Plan) -> Value + Copy + Send + Sync + 'static>(
    builtin: Builtin,
    carry_out: F,
) -> (r: Function)
    requires
        forall|plan: Plan| call_requires(carry_out, (plan,)),
    ensures
        forall|argument: Value, result: Result<Value, EvalexprError>| #[trigger]
            call_gives(r, argument, result) ==> builtin_gives(
                builtin,
                argument,
                carry_out,
                result,
            ),
{
    Function::new(move |argument| call_builtin(builtin, argument, carry_out))
}

/// Some pair of `pairs` from the place `from` on has the name `name`.
pub open spec fn holds_name(pairs: Seq<(String, Value)>, from: int, name: Seq<char>) -> bool {
    exists|j: int| from <= j < pairs.len() && (#[trigger] pairs[j]).0@ == name
}

/// What the engine sees of a value of the evaluator: its kind, and of a tuple which items
/// are numbers.
fn datum_of(value: &Value) -> (r: Datum)
    ensures
        r@ == seen(*value),
{
    match number_of(value) {
        Some(bits) => {
            return Datum::Number(bits);
        },
        None => {},
    }
    match text_of(value) {
        Some(text) => {
            return Datum::Text(text);
        },
        None => {},
    }
    match truth_of(value) {
        Some(b) => {
            return Datum::Boolean(b);
        },
        None => {},
    }
    match items_of(value) {
        Some(items) => {
            let mut numbers: Vec<Option<u64>> = Vec::new();
            let mut i: usize = 0;
            while i < items.len()
                invariant
                    i <= items@.len(),
                    numbers@.len() == i,
                    forall|j: int| 0 <= j < i ==> numbers@[j] == value_number(#[trigger] items@[j]),
                decreases items@.len() - i,
            {
                numbers.push(number_of(&items[i]));
                i += 1;
            }
            proof {
                assert(numbers@ =~= items@.map_values(|item: Value| value_number(item)));
            }
            Datum::Tuple(numbers)
        },
        None => Datum::Empty,
    }
}

/// What `builtin` makes of an argument that the evaluator hands to it.
pub fn plan_for(builtin: Builtin, argument: &Value) -> (r: Result<Plan, ArgError>)
    ensures
        match r {
            Ok(plan) => builtin.planned(seen(*argument)) == Ok::<PlanView, ArgError>(plan@),
            Err(e) => builtin.planned(seen(*argument)) == Err::<PlanView, ArgError>(e),
        },
{
    let datum = datum_of(argument);
    builtin.plan(&datum)
}

/// `value` is what the caller's way of carrying out made of a plan that holds `planned`.
pub open spec fn carried<F: Fn(Plan) -> Value>(carry_out: F, planned: PlanView, value: Value) -> bool {
    exists|plan: Plan| plan@ == planned && #[trigger] call_ensures(carry_out, (plan,), value)
}

/// `value` answers the plan `planned`: a plan that is a text is answered by that text; any
/// other plan by what the caller's way of carrying out makes of it.
pub open spec fn answers<F: Fn(Plan) -> Value>(carry_out: F, planned: PlanView, value: Value) -> bool {
    match planned {
        PlanView::Text(text) => seen(value) == DatumView::Text(text),
        _ => carried(carry_out, planned, value),
    }
}

/// `result` is what a built-in function gives for an argument of the evaluator. It is a
/// success just where the built-in accepts what the engine sees of the argument, and then
/// answers the plan that the built-in makes of it.
pub open spec fn builtin_gives<F: Fn(Plan) -> Value>(
    builtin: Builtin,
    argument: Value,
    carry_out: F,
    result: Result<Value, EvalexprError>,
) -> bool {
    &&& result is Ok <==> builtin.planned(seen(argument)) is Ok
    &&& result is Ok ==> answers(carry_out, builtin.planned(seen(argument))->Ok_0, result->Ok_0)
}

/// `function` does the work of `builtin`: whatever a call of it gives is what the built-in
/// gives for the argument.
pub open spec fn serves<F: Fn(Plan) -> Value>(function: Function, builtin: Builtin, carry_out: F) -> bool {
    forall|argument: Value, result: Result<Value, EvalexprError>| #[trigger]
        call_gives(function, argument, result) ==> builtin_gives(
            builtin,
            argument,
            carry_out,
            result,
        )
}

/// Whether a context holds a function under a name.
pub open spec fn installed(context: HashMapContext, name: Seq<char>) -> bool {
    function_at(context, name) is Some
}

/// The context holds under the name of `builtin` a function that does its work.
pub open spec fn holds_builtin<F: Fn(Plan) -> Value>(
    context: HashMapContext,
    builtin: Builtin,
    carry_out: F,
) -> bool {
    function_at(context, builtin.name_text()) matches Some(function) && serves(
        function,
        builtin,
        carry_out,
    )
}

/// Whether a name is the name of a built-in function.
pub open spec fn is_builtin_name(name: Seq<char>) -> bool {
    exists|builtin: Builtin| #[trigger] builtin.name_text() == name
}

/// The evaluator's error for an argument of the wrong kind.
fn refusal(kind: ArgError) -> (r: EvalexprError) {
    match kind {
        ArgError::ExpectedNumber => number_expected(),
        ArgError::ExpectedString => text_expected(),
        ArgError::ExpectedTuple => tuple_expected(),
    }
}

/// What a built-in function gives for an argument of the evaluator. It succeeds just where
/// the built-in accepts what the engine sees of the argument, and then gives what answers the
/// plan: the text itself where the plan is a text, else what the caller's way of carrying out
/// makes of the plan. Where the built-in refuses, it fails with the evaluator's error for a
/// value of the wrong kind.
pub fn call_builtin<F: Fn(Plan) -> Value>(builtin: Builtin, argument: &Value, carry_out: F) -> (r:
    Result<Value, EvalexprError>)
    requires
        forall|plan: Plan| call_requires(carry_out, (plan,)),
    ensures
        builtin_gives(builtin, *argument, carry_out, r),
{
    match plan_for(builtin, argument) {
        Ok(Plan::Text(text)) => Ok(text_value(text)),
        Ok(plan) => {
            let ghost handed = plan;
            let value = carry_out(plan);
            proof {
                assert(handed@ == builtin.planned(seen(*argument))->Ok_0);
                assert(call_ensures(carry_out, (handed,), value));
            }
            Ok(value)
        },
        Err(kind) => Err(refusal(kind)),
    }
}

/// The result that the engine makes of what an evaluation gave.
///
/// A truth value, a number and a text are results as they are, and no value is the empty
/// result. A tuple is a point, of its first two items; it is a failure of kind where it has
/// fewer than two items or one of the two is no number.
pub open spec fn interpreted(outcome: DatumView) -> Result<ReplResultView, ReplError> {
    match outcome {
        DatumView::Empty => Ok(ReplResultView::Empty),
        DatumView::Boolean(b) => Ok(ReplResultView::Boolean(b)),
        DatumView::Number(bits) => Ok(ReplResultView::Number(NumberView::Bits(bits))),
        DatumView::Text(text) => Ok(ReplResultView::Text(text)),
        DatumView::Tuple(items) => if items.len() >= 2 && items[0] is Some && items[1] is Some {
            Ok(
                ReplResultView::Point(
                    PointView {
                        x: NumberView::Bits(items[0]->0),
                        y: NumberView::Bits(items[1]->0),
                    },
                ),
            )
        } else {
            Err(ReplError::InvalidType)
        },
    }
}

/// The result that the engine makes of what an evaluation gave.
pub fn interpret(outcome: Datum) -> (r: Result<ReplResult, ReplError>)
    ensures
        match r {
            Ok(result) => interpreted(outcome@) == Ok::<ReplResultView, ReplError>(result@),
            Err(e) => interpreted(outcome@) == Err::<ReplResultView, ReplError>(e),
        },
{
    match outcome {
        Datum::Empty => Ok(ReplResult::Empty),
        Datum::Boolean(b) => Ok(ReplResult::Boolean(b)),
        Datum::Number(bits) => Ok(ReplResult::Number(Number::from_bits(bits))),
        Datum::Text(text) => Ok(ReplResult::String(text)),
        Datum::Tuple(items) => {
            if items.len() < 2 {
                return Err(ReplError::InvalidType);
            }
            match (items[0], items[1]) {
                (Some(x), Some(y)) => Ok(
                    ReplResult::Point(Point { x: Number::from_bits(x), y: Number::from_bits(y) }),
                ),
                _ => Err(ReplError::InvalidType),
            }
        },
    }
}

/// Binds `name` to `text` in the context, whatever the name was bound to. Where the context
/// refuses, because the name holds a value that is no text, all variables are taken out and
/// put back but that one, and the text is bound then.
fn keep_text(context: &mut HashMapContext, name: &str, text: &str)
    ensures
        text_variable(*final(context), name@) == Some(text@),
        own_functions_off(*final(context)) == own_functions_off(*old(context)),
        forall|other: Seq<char>|
            other != name@ ==> #[trigger] variable(*final(context), other) == variable(
                *old(context),
                other,
            ),
        forall|other: Seq<char>|
            #[trigger] function_at(*final(context), other) == function_at(*old(context), other),
{
    match set_text(context, name, text) {
        Ok(_) => {
            return ;
        },
        Err(_) => {},
    }
    let saved = variables_of(context);
    let ghost all = saved@;
    let name_chars = chars_of(name);
    proof {
        assert forall|other: Seq<char>| #[trigger]
            variable(*old(context), other) == variable(*context, other) by {}
        assert forall|other: Seq<char>|
            (#[trigger] variable(*old(context), other)) is Some implies holds_name(
            all,
            0,
            other,
        ) by {
            assert(variable(*context, other) is Some);
        }
        assert forall|i: int| 0 <= i < all.len() implies variable(
            *old(context),
            (#[trigger] all[i]).0@,
        ) == Some(all[i].1) by {
            assert(variable(*context, all[i].0@) == Some(all[i].1));
        }
    }
    clear_variables(context);
    let mut rest = saved;
    while rest.len() > 0
        invariant
            rest@.len() <= all.len(),
            rest@ == all.subrange(0, rest@.len() as int),
            name_chars@ == name@,
            own_functions_off(*context) == own_functions_off(*old(context)),
            forall|other: Seq<char>|
                #[trigger] function_at(*context, other) == function_at(*old(context), other),
            forall|i: int|
                0 <= i < all.len() ==> variable(*old(context), (#[trigger] all[i]).0@) == Some(
                    all[i].1,
                ),
            forall|name: Seq<char>|
                (#[trigger] variable(*old(context), name)) is Some ==> holds_name(all, 0, name),
            forall|i: int, j: int|
                0 <= i < j < all.len() ==> (#[trigger] all[i]).0@ != (#[trigger] all[j]).0@,
            forall|i: int|
                rest@.len() <= i < all.len() && (#[trigger] all[i]).0@ != name@ ==> variable(
                    *context,
                    all[i].0@,
                ) == Some(all[i].1),
            forall|other: Seq<char>|
                (#[trigger] variable(*context, other)) is Some ==> other != name@ && holds_name(
                    all,
                    rest@.len() as int,
                    other,
                ),
        decreases rest@.len(),
    {
        let ghost before = *context;
        let ghost k = rest@.len() - 1;
        let pair = match rest.pop() {
            Some(pair) => pair,
            None => {
                return ;
            },
        };
        proof {
            assert(pair == all[k]);
        }
        let same = same_text(chars_of(pair.0.as_str()).as_slice(), name_chars.as_slice());
        if !same {
            proof {
                if variable(before, pair.0@) is Some {
                    let j = choose|j: int|
                        k + 1 <= j < all.len() && (#[trigger] all[j]).0@ == pair.0@;
                    assert(all[k].0@ != all[j].0@);
                }
            }
            let _ = set_value(context, pair.0.as_str(), pair.1);
            proof {
                assert forall|other: Seq<char>|
                    (#[trigger] variable(*context, other)) is Some implies other != name@
                        && holds_name(all, k, other) by {
                    if other == pair.0@ {
                        assert(all[k].0@ == other);
                    } else {
                        assert(variable(before, other) is Some);
                        let j = choose|j: int|
                            k + 1 <= j < all.len() && (#[trigger] all[j]).0@ == other;
                        assert(all[j].0@ == other);
                    }
                }
            }
        } else {
            proof {
                assert forall|other: Seq<char>|
                    (#[trigger] variable(*context, other)) is Some implies other != name@
                        && holds_name(all, k, other) by {
                    let j = choose|j: int|
                        k + 1 <= j < all.len() && (#[trigger] all[j]).0@ == other;
                    assert(all[j].0@ == other);
                }
            }
        }
    }
    let ghost emptied = *context;
    let _ = set_text(context, name, text);
    proof {
        assert forall|other: Seq<char>| other != name@ implies #[trigger] variable(
            *context,
            other,
        ) == variable(*old(context), other) by {
            assert(variable(*context, other) == variable(emptied, other));
            if variable(*old(context), other) is Some {
                let i = choose|i: int| 0 <= i < all.len() && (#[trigger] all[i]).0@ == other;
                assert(variable(emptied, all[i].0@) == Some(all[i].1));
            } else if variable(emptied, other) is Some {
                let j = choose|j: int| 0 <= j < all.len() && (#[trigger] all[j]).0@ == other;
                assert(variable(*old(context), all[j].0@) == Some(all[j].1));
            }
        }
    }
}

/// How the text that shows a truth value begins.
pub open spec fn boolean_open() -> Seq<char> {
    seq!['B', 'o', 'o', 'l', 'e', 'a', 'n', '(']
}

/// How the text that shows a number begins.
pub open spec fn number_open() -> Seq<char> {
    seq!['N', 'u', 'm', 'b', 'e', 'r', '(']
}

/// How the text that shows a point begins.
pub open spec fn point_shown_open() -> Seq<char> {
    seq!['P', 'o', 'i', 'n', 't', '(', 'P', 'o', 'i', 'n', 't', ' ', '{', ' ', 'x', ':', ' ']
}

/// What stands between the two coordinates of a point that is shown.
pub open spec fn point_shown_between() -> Seq<char> {
    seq![',', ' ', 'y', ':', ' ']
}

/// How the text that shows a point ends.
pub open spec fn point_shown_close() -> Seq<char> {
    seq![' ', '}', ')']
}

/// How the text begins under which a list is kept.
pub open spec fn list_open() -> Seq<char> {
    seq!['L', 'i', 's', 't', '(', '[']
}

/// How the text ends under which a list is kept.
pub open spec fn list_close() -> Seq<char> {
    seq![']', ')']
}

/// The text that a value is, or `fallback` where it is no text.
pub open spec fn text_or(value: Value, fallback: Seq<char>) -> Seq<char> {
    match value_text(value) {
        Some(text) => text,
        None => fallback,
    }
}

/// `text` shows the number `number`: it is the text that the caller's way of carrying out
/// gave when it was asked to show the number. Where it gave no text, the number is shown as
/// it is written.
pub open spec fn number_shown<F: Fn(Plan) -> Value>(
    carry_out: F,
    number: NumberView,
    text: Seq<char>,
) -> bool {
    exists|plan: Plan, value: Value|
        plan@ == PlanView::Show(number) && #[trigger] call_ensures(carry_out, (plan,), value)
            && text == text_or(value, number_text(number))
}

/// `text` shows the item `item` of a list with the name of its kind and of its parts:
/// `Boolean(true)`, `Number(..)` around the text that shows the number, and
/// `Point(Point { x: .., y: .. })` around the texts that show the coordinates.
pub open spec fn item_shown<F: Fn(Plan) -> Value>(
    carry_out: F,
    item: ReplResultView,
    text: Seq<char>,
) -> bool {
    match item {
        ReplResultView::Boolean(b) => text == boolean_open() + truth_text(b) + seq![')'],
        ReplResultView::Number(n) => exists|t: Seq<char>| #[trigger]
            number_shown(carry_out, n, t) && text == number_open() + t + seq![')'],
        ReplResultView::Point(p) => exists|x: Seq<char>, y: Seq<char>|
            #![trigger number_shown(carry_out, p.x, x), number_shown(carry_out, p.y, y)]
            number_shown(carry_out, p.x, x) && number_shown(carry_out, p.y, y) && text
                == point_shown_open() + x + point_shown_between() + y + point_shown_close(),
        _ => false,
    }
}

/// Each of `texts` shows the item of `items` at its place.
pub open spec fn items_shown<F: Fn(Plan) -> Value>(
    carry_out: F,
    items: Seq<ReplResultView>,
    texts: Seq<Seq<char>>,
) -> bool {
    texts.len() == items.len() && forall|i: int|
        0 <= i < items.len() ==> #[trigger] item_shown(carry_out, items[i], texts[i])
}

/// `text` is the text under which the list of `items` is kept: `List([`, what shows each
/// item, with a comma and a space between each two, and `])`.
pub open spec fn list_shown<F: Fn(Plan) -> Value>(
    carry_out: F,
    items: Seq<ReplResultView>,
    text: Seq<char>,
) -> bool {
    exists|texts: Seq<Seq<char>>| #[trigger]
        items_shown(carry_out, items, texts) && text == list_open() + joined(
            texts,
            comma_space(),
        ) + list_close()
}

/// The engine. `F` is the caller's way of carrying a plan out.
pub struct Repl<F: Fn(Plan) -> Value + Copy + Send + Sync + 'static> {
    context: HashMapContext,
    regex_list_pattern: Option<Regex>,
    carry_out: F,
}

impl<F: Fn(Plan) -> Value + Copy + Send + Sync + 'static> Repl<F> {
    /// The context of variables and functions.
    pub closed spec fn context(&self) -> HashMapContext {
        self.context
    }

    /// The compiled pattern of a list literal, where the pattern could be compiled.
    pub closed spec fn list_pattern(&self) -> Option<Regex> {
        self.regex_list_pattern
    }

    /// The caller's way of carrying a plan out.
    pub closed spec fn carry_out(&self) -> F {
        self.carry_out
    }

    /// What holds of every engine that was made by [`Repl::new`]: the evaluator's own
    /// functions are off, and the caller's way of carrying out takes every plan.
    pub closed spec fn wf(&self) -> bool {
        &&& own_functions_off(self.context)
        &&& forall|plan: Plan| call_requires(self.carry_out, (plan,))
    }

    /// The name and the items of the list literal that a line is, both trimmed: what the
    /// pattern captures in the line without its trailing space. `None` where the line is no
    /// list literal.
    pub open spec fn list_form(&self, input: Seq<char>) -> Option<(Seq<char>, Seq<char>)> {
        match self.list_pattern() {
            Some(pattern) => match captured_pair(pattern, skip_trailing(input), 1, 2) {
                Some(pair) => Some((trimmed(pair.0), trimmed(pair.1))),
                None => None,
            },
            None => None,
        }
    }

    /// A new engine: no variable, the evaluator's own functions off, every built-in function
    /// installed under its name, and the pattern of a list literal compiled. `carry_out` is
    /// the caller's way of carrying a plan out; it has to take every plan.
    pub fn new(carry_out: F) -> (r: Repl<F>)
        requires
            forall|plan: Plan| call_requires(carry_out, (plan,)),
        ensures
            r.wf(),
            r.carry_out() == carry_out,
            r.list_pattern() == compiled_pattern(list_pattern_text()),
            forall|builtin: Builtin| #[trigger] holds_builtin(r.context(), builtin, carry_out),
            forall|name: Seq<char>|
                !is_builtin_name(name) ==> #[trigger] function_at(r.context(), name) is None,
            forall|name: Seq<char>| #[trigger] variable(r.context(), name) is None,
    {
        let mut context = fresh_context();
        let _ = switch_own_functions(&mut context, true);
        let mut r = Repl {
            context,
            regex_list_pattern: compile("^(\\w+)\\s*=\\s*List\\s*\\((.*)\\)$"),
            carry_out,
        };
        r.setup_math_functions();
        r
    }

    /// Whether the engine has its pattern, and so takes list literals as such.
    pub fn reads_lists(&self) -> (r: bool)
        ensures
            r == self.list_pattern().is_some(),
    {
        self.regex_list_pattern.is_some()
    }

    /// Makes the function of `builtin` and installs it under the name of `builtin`, in place
    /// of what was installed under that name before. The context takes every function, so
    /// this always succeeds. What is installed under other names stays as it is, and so do
    /// the variables.
    pub fn install(&mut self, builtin: Builtin) -> (r: Result<(), ReplError>)
        requires
            old(self).wf(),
        ensures
            final(self).wf(),
            r is Ok,
            holds_builtin(final(self).context(), builtin, old(self).carry_out()),
            final(self).list_pattern() == old(self).list_pattern(),
            final(self).carry_out() == old(self).carry_out(),
            forall|other: Seq<char>|
                other != builtin.name_text() ==> #[trigger] function_at(
                    final(self).context(),
                    other,
                ) == function_at(old(self).context(), other),
            forall|other: Seq<char>|
                #[trigger] variable(final(self).context(), other) == variable(
                    old(self).context(),
                    other,
                ),
    {
        let function = function_of(builtin, self.carry_out);
        match set_function(&mut self.context, builtin.name(), function) {
            Ok(_) => Ok(()),
            Err(e) => Err(ReplError::Evaluator(e)),
        }
    }

    /// Makes and installs the built-in functions, all of them, each under its name. What is
    /// installed under a name that is no built-in's stays as it is, and so do the variables.
    pub fn setup_math_functions(&mut self)
        requires
            old(self).wf(),
        ensures
            final(self).wf(),
            final(self).list_pattern() == old(self).list_pattern(),
            final(self).carry_out() == old(self).carry_out(),
            forall|builtin: Builtin| #[trigger]
                holds_builtin(final(self).context(), builtin, old(self).carry_out()),
            forall|other: Seq<char>|
                !is_builtin_name(other) ==> #[trigger] function_at(final(self).context(), other)
                    == function_at(old(self).context(), other),
            forall|other: Seq<char>|
                #[trigger] variable(final(self).context(), other) == variable(
                    old(self).context(),
                    other,
                ),
    {
        let builtins = Builtin::all();
        let mut done: usize = 0;
        while done < builtins.len()
            invariant
                done <= builtins@.len(),
                builtins@ == all_builtins(),
                self.wf(),
                self.list_pattern() == old(self).list_pattern(),
                self.carry_out() == old(self).carry_out(),
                forall|i: int|
                    0 <= i < done ==> holds_builtin(
                        self.context(),
                        #[trigger] all_builtins()[i],
                        old(self).carry_out(),
                    ),
                forall|other: Seq<char>|
                    !is_builtin_name(other) ==> #[trigger] function_at(self.context(), other)
                        == function_at(old(self).context(), other),
                forall|other: Seq<char>|
                    #[trigger] variable(self.context(), other) == variable(
                        old(self).context(),
                        other,
                    ),
            decreases builtins@.len() - done,
        {
            let ghost before = self.context();
            let ghost next = builtins@[done as int];
            let _ = self.install(builtins[done]);
            proof {
                assert(is_builtin_name(next.name_text()));
                assert forall|i: int| 0 <= i < done + 1 implies holds_builtin(
                    self.context(),
                    #[trigger] all_builtins()[i],
                    old(self).carry_out(),
                ) by {
                    let earlier = all_builtins()[i];
                    if earlier != next {
                        law_names_differ(earlier, next);
                        assert(holds_builtin(before, earlier, old(self).carry_out()));
                    }
                }
            }
            done += 1;
        }
        proof {
            assert forall|builtin: Builtin| #[trigger]
                holds_builtin(self.context(), builtin, old(self).carry_out()) by {
                lemma_every_builtin_is_listed(builtin);
                let i = choose|i: int|
                    0 <= i < all_builtins().len() && all_builtins()[i] == builtin;
                assert(holds_builtin(self.context(), all_builtins()[i], old(self).carry_out()));
            }
        }
    }

    /// The name and the items of the list literal that `input` is, if it is one.
    fn recognise(&self, input: &str) -> (r: Option<(String, String)>)
        ensures
            match r {
                Some(pair) => self.list_form(input@) == Some((pair.0@, pair.1@)),
                None => self.list_form(input@) is None,
            },
    {
        let pattern = match &self.regex_list_pattern {
            Some(pattern) => pattern,
            None => {
                return None;
            },
        };
        let line = string_of(trim_end(chars_of(input).as_slice()).as_slice());
        match capture_pair(pattern, line.as_str(), 1, 2) {
            Some(pair) => {
                let name = string_of(trim(chars_of(pair.0.as_str()).as_slice()).as_slice());
                let values = string_of(trim(chars_of(pair.1.as_str()).as_slice()).as_slice());
                Some((name, values))
            },
            None => None,
        }
    }

    /// The text that shows `number`: the caller's way of carrying out is asked for it.
    fn show_number(&self, number: &Number) -> (out: Vec<char>)
        requires
            self.wf(),
        ensures
            number_shown(self.carry_out(), number@, out@),
    {
        let plan = Plan::Show(number.duplicate());
        let ghost handed = plan;
        let carry_out = self.carry_out;
        let value = carry_out(plan);
        let out = match text_of(&value) {
            Some(text) => chars_of(text.as_str()),
            None => write_number(number),
        };
        proof {
            assert(handed@ == PlanView::Show(number@) && call_ensures(
                self.carry_out(),
                (handed,),
                value,
            ) && out@ == text_or(value, number_text(number@)));
        }
        out
    }

    /// The text that shows an item of a list.
    fn show_item(&self, item: &ReplResult) -> (out: Vec<char>)
        requires
            self.wf(),
            can_be_listed(item@),
        ensures
            item_shown(self.carry_out(), item@, out@),
    {
        let mut out: Vec<char> = Vec::new();
        match item {
            ReplResult::Boolean(b) => {
                let open: [char; 8] = ['B', 'o', 'o', 'l', 'e', 'a', 'n', '('];
                append(&mut out, open.as_slice());
                append(&mut out, write_truth(*b).as_slice());
                out.push(')');
                proof {
                    assert(open@ == boolean_open());
                    assert(out@ == boolean_open() + truth_text(*b) + seq![')']);
                }
            },
            ReplResult::Number(n) => {
                let open: [char; 7] = ['N', 'u', 'm', 'b', 'e', 'r', '('];
                let text = self.show_number(n);
                append(&mut out, open.as_slice());
                append(&mut out, text.as_slice());
                out.push(')');
                proof {
                    assert(open@ == number_open());
                    assert(number_shown(self.carry_out(), n@, text@) && out@ == number_open()
                        + text@ + seq![')']);
                }
            },
            ReplResult::Point(p) => {
                let open: [char; 17] = [
                    'P',
                    'o',
                    'i',
                    'n',
                    't',
                    '(',
                    'P',
                    'o',
                    'i',
                    'n',
                    't',
                    ' ',
                    '{',
                    ' ',
                    'x',
                    ':',
                    ' ',
                ];
                let between: [char; 5] = [',', ' ', 'y', ':', ' '];
                let close: [char; 3] = [' ', '}', ')'];
                let x = self.show_number(&p.x);
                let y = self.show_number(&p.y);
                append(&mut out, open.as_slice());
                append(&mut out, x.as_slice());
                append(&mut out, between.as_slice());
                append(&mut out, y.as_slice());
                append(&mut out, close.as_slice());
                proof {
                    assert(open@ == point_shown_open());
                    assert(between@ == point_shown_between());
                    assert(close@ == point_shown_close());
                    assert(number_shown(self.carry_out(), p@.x, x@) && number_shown(
                        self.carry_out(),
                        p@.y,
                        y@,
                    ) && out@ == point_shown_open() + x@ + point_shown_between() + y@
                        + point_shown_close());
                }
            },
            _ => {},
        }
        out
    }

    /// The text under which a list is kept.
    fn show_list(&self, list: &Array) -> (r: String)
        requires
            self.wf(),
            forall|i: int| 0 <= i < list@.len() ==> can_be_listed(#[trigger] list@[i]),
        ensures
            list_shown(self.carry_out(), list@, r@),
    {
        let ghost items = list@;
        proof {
            lemma_result_views_index(list.items@);
        }
        let mut texts: Vec<Vec<char>> = Vec::new();
        let mut i: usize = 0;
        while i < list.items.len()
            invariant
                i <= list.items@.len(),
                self.wf(),
                items == list@,
                items.len() == list.items@.len(),
                forall|j: int| 0 <= j < items.len() ==> (#[trigger] items[j]) == list.items@[j]@,
                forall|j: int| 0 <= j < items.len() ==> can_be_listed(#[trigger] items[j]),
                texts@.len() == i,
                forall|j: int|
                    0 <= j < i ==> #[trigger] item_shown(self.carry_out(), items[j], texts@[j]@),
            decreases list.items@.len() - i,
        {
            assert(can_be_listed(items[i as int]));
            let text = self.show_item(&list.items[i]);
            texts.push(text);
            i += 1;
        }
        let between: [char; 2] = [',', ' '];
        let open: [char; 6] = ['L', 'i', 's', 't', '(', '['];
        let mut out: Vec<char> = Vec::new();
        append(&mut out, open.as_slice());
        append(&mut out, join(&texts, between.as_slice()).as_slice());
        out.push(']');
        out.push(')');
        proof {
            let views = text_views(texts@);
            assert(between@ == comma_space());
            assert(open@ == list_open());
            assert forall|j: int| 0 <= j < items.len() implies #[trigger] item_shown(
                self.carry_out(),
                items[j],
                views[j],
            ) by {
                assert(views[j] == texts@[j]@);
                assert(item_shown(self.carry_out(), items[j], texts@[j]@));
            }
            assert(items_shown(self.carry_out(), items, views));
            assert(out@ == list_open() + joined(views, comma_space()) + list_close());
        }
        string_of(out.as_slice())
    }

    /// Decodes the list whose items are written in `values`, and keeps it in the context under
    /// `name`, as the text that shows it, in place of whatever the name was bound to. The
    /// result is the list, always. The other variables and the functions stay as they are.
    pub fn create_list(&mut self, name: &str, values: &str) -> (r: Result<ReplResult, ReplError>)
        requires
            old(self).wf(),
        ensures
            final(self).wf(),
            final(self).list_pattern() == old(self).list_pattern(),
            final(self).carry_out() == old(self).carry_out(),
            r matches Ok(result) && result@ == ReplResultView::List(decoded(values@)),
            exists|text: Seq<char>| #[trigger]
                list_shown(old(self).carry_out(), decoded(values@), text) && text_variable(
                    final(self).context(),
                    name@,
                ) == Some(text),
            forall|other: Seq<char>|
                other != name@ ==> #[trigger] variable(final(self).context(), other) == variable(
                    old(self).context(),
                    other,
                ),
            forall|other: Seq<char>|
                #[trigger] function_at(final(self).context(), other) == function_at(
                    old(self).context(),
                    other,
                ),
    {
        let list = decode_list(values);
        proof {
            lemma_items_are_items(trimmed(values@), 0);
            assert forall|i: int| 0 <= i < list@.len() implies can_be_listed(
                #[trigger] list@[i],
            ) by {
                assert(is_item(list@[i]));
            }
        }
        let text = self.show_list(&list);
        keep_text(&mut self.context, name, text.as_str());
        proof {
            assert(list_shown(old(self).carry_out(), decoded(values@), text@) && text_variable(
                self.context(),
                name@,
            ) == Some(text@));
        }
        Ok(ReplResult::List(list))
    }

    /// Processes one line.
    ///
    /// A list literal is decoded and kept under its name, in place of whatever the name was
    /// bound to; the result is the list, always, and the line is not evaluated. Any other
    /// line is evaluated, and the result is what [`interpret`] makes of the value as the
    /// engine sees it; where the evaluator fails, the line fails with the evaluator's error.
    pub fn process_input(&mut self, input: &str) -> (r: Result<ReplResult, ReplError>)
        requires
            old(self).wf(),
        ensures
            final(self).wf(),
            final(self).list_pattern() == old(self).list_pattern(),
            final(self).carry_out() == old(self).carry_out(),
            forall|name: Seq<char>|
                #[trigger] function_at(final(self).context(), name) == function_at(
                    old(self).context(),
                    name,
                ),
            match old(self).list_form(input@) {
                Some(form) => {
                    &&& r matches Ok(result) && result@ == ReplResultView::List(decoded(form.1))
                    &&& exists|text: Seq<char>| #[trigger]
                        list_shown(old(self).carry_out(), decoded(form.1), text) && text_variable(
                            final(self).context(),
                            form.0,
                        ) == Some(text)
                    &&& forall|other: Seq<char>|
                        other != form.0 ==> #[trigger] variable(final(self).context(), other)
                            == variable(old(self).context(), other)
                },
                None => match r {
                    Ok(result) => exists|value: Value| #[trigger]
                        interpreted(seen(value)) == Ok::<ReplResultView, ReplError>(result@),
                    Err(e) => e is Evaluator || e == ReplError::InvalidType,
                },
            },
    {
        match self.recognise(input) {
            Some(form) => {
                return self.create_list(form.0.as_str(), form.1.as_str());
            },
            None => {},
        }
        match evaluate(input, &mut self.context) {
            Ok(value) => {
                let datum = datum_of(&value);
                let r = interpret(datum);
                proof {
                    if r is Ok {
                        assert(interpreted(seen(value)) == Ok::<ReplResultView, ReplError>(
                            r->Ok_0@,
                        ));
                    }
                }
                r
            },
            Err(e) => Err(ReplError::Evaluator(e)),
        }
    }
}

} // verus!
