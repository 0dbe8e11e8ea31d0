//! One line of text through the tokenizer, the parser and the evaluator.

use crate::context::evaluated;
use crate::context::Context;
use crate::context::EvalError;
use crate::context::Evaluation;
use crate::context::OperandView;
use crate::context::Progress;
use crate::parser::parse;
use crate::parser::parsed;
use crate::token::tokenize;
use crate::token::tokens_of;
use crate::token::LexError;
use vstd::prelude::*;

verus! {

/// Why a line cannot be evaluated.
#[derive(Debug, Clone, Copy, PartialEq, Eq, Structural)]
pub enum LineError {
    /// The line has no tokens: one of its numerals is malformed.
    Lex(LexError),
    /// The expression of the line cannot be evaluated.
    Eval(EvalError),
}

/// What the evaluation of the line `line` comes to, by a context with the functions
/// `functions` and the variables `variables`: the line is cut into tokens, the expression at
/// the front of the tokens is read, and that expression is evaluated.
pub open spec fn line_evaluated(
    line: Seq<char>,
    functions: Set<Seq<char>>,
    variables: Map<Seq<char>, crate::number::NumberView>,
) -> Result<(OperandView, Progress), LineError> {
    match tokens_of(line) {
        None => Err(LineError::Lex(LexError::MalformedNumeral)),
        Some(tokens) => match evaluated(parsed(tokens), functions, Progress::start(variables)) {
            Ok(done) => Ok(done),
            Err(e) => Err(LineError::Eval(e)),
        },
    }
}

/// Evaluates the line `line` against `context`, as far as it goes without arithmetic. The
/// context is not changed.
pub fn evaluate_line(context: &Context, line: &str) -> (r: Result<Evaluation, LineError>)
    ensures
        match r {
            Ok(evaluation) => {
                &&& evaluation.wf()
                &&& line_evaluated(line@, context.functions(), context.variables()) matches Ok(
                    done,
                )
                &&& done.0 == evaluation.result@
                &&& done.1.steps == evaluation.steps_view()
                &&& done.1.bindings == evaluation.bindings_view()
            },
            Err(e) => line_evaluated(line@, context.functions(), context.variables()) == Err::<
                (OperandView, Progress),
                LineError,
            >(e),
        },
{
    let tokens = match tokenize(line) {
        Ok(tokens) => tokens,
        Err(e) => {
            return Err(LineError::Lex(e));
        },
    };
    let expr = parse(&tokens);
    match context.eval_expr(&expr) {
        Ok(evaluation) => Ok(evaluation),
        Err(e) => Err(LineError::Eval(e)),
    }
}

} // verus!
