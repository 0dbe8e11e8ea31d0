use mymathboard::ast::BinOp;
use mymathboard::ast::Expr;
use mymathboard::context::Context;
use mymathboard::context::EvalError;
use mymathboard::context::Evaluation;
use mymathboard::context::Operand;
use mymathboard::context::Binding;
use mymathboard::context::Operation;
use mymathboard::context::Step;
use mymathboard::engine::evaluate_line;
use mymathboard::engine::LineError;
use mymathboard::number::Number;
use mymathboard::number::NumberForm;
use mymathboard::parser::parse;
use mymathboard::token::tokenize;
use mymathboard::token::LexError;
use mymathboard::token::Token;

fn value_of(n: &Number) -> f64 {
    match n.form() {
        NumberForm::Literal(text) => text.parse::<f64>().unwrap(),
        NumberForm::Bits(bits) => f64::from_bits(bits),
    }
}

fn operand_value(operand: &Operand, values: &[u64]) -> f64 {
    match operand {
        Operand::Number(n) => value_of(n),
        Operand::Step(i) => f64::from_bits(values[*i]),
    }
}

fn carry_out(evaluation: &Evaluation) -> Vec<u64> {
    let mut values: Vec<u64> = Vec::new();
    for step in &evaluation.steps {
        let left = operand_value(&step.left, &values);
        let right = operand_value(&step.right, &values);
        let outcome = match &step.operation {
            Operation::Binary(BinOp::Add) => left + right,
            Operation::Binary(BinOp::Subtract) => left - right,
            Operation::Binary(BinOp::Multiply) => left * right,
            Operation::Binary(BinOp::Divide) => left / right,
            Operation::Call(name) => match name.as_str() {
                "sqrt" => left.sqrt(),
                "max" => {
                    if left > right {
                        left
                    } else {
                        right
                    }
                }
                other => panic!("no function {}", other),
            },
        };
        values.push(outcome.to_bits());
    }
    values
}

fn run(context: &mut Context, line: &str) -> f64 {
    let tokens = tokenize(line).unwrap();
    let expr = parse(&tokens);
    let evaluation = context.eval_expr(&expr).unwrap();
    let values = carry_out(&evaluation);
    value_of(&context.conclude(&evaluation, &values))
}

fn name(text: &str) -> Token {
    Token::Identifier(text.to_string())
}

fn numeral(text: &str) -> Token {
    Token::Number(Number::read(text).unwrap())
}

fn literal(text: &str) -> Expr {
    Expr::Number(Number::read(text).unwrap())
}

#[test]
fn tokens_of_a_let_line() {
    assert_eq!(
        tokenize("let x = 5;").unwrap(),
        vec![Token::Let, name("x"), Token::Assign, numeral("5"), Token::Semicolon, Token::Eof]
    );
}

#[test]
fn tokens_of_every_punctuation_character() {
    assert_eq!(
        tokenize("+-*/=(),;").unwrap(),
        vec![
            Token::Plus,
            Token::Minus,
            Token::Multiply,
            Token::Divide,
            Token::Assign,
            Token::OpenParen,
            Token::CloseParen,
            Token::Comma,
            Token::Semicolon,
            Token::Eof
        ]
    );
}

#[test]
fn empty_line_has_only_the_end_marker() {
    assert_eq!(tokenize("").unwrap(), vec![Token::Eof]);
    assert_eq!(tokenize("  \n ").unwrap(), vec![Token::Eof]);
}

#[test]
fn unknown_characters_are_passed_over() {
    assert_eq!(tokenize("a # $ b\t?").unwrap(), vec![name("a"), name("b"), Token::Eof]);
    assert_eq!(tokenize("x_y").unwrap(), vec![name("x"), name("y"), Token::Eof]);
}

#[test]
fn numerals_keep_their_text() {
    assert_eq!(
        tokenize("12.50 7 3.").unwrap(),
        vec![numeral("12.50"), numeral("7"), numeral("3."), Token::Eof]
    );
}

#[test]
fn a_word_ends_at_a_digit() {
    assert_eq!(tokenize("x1").unwrap(), vec![name("x"), numeral("1"), Token::Eof]);
    assert_eq!(tokenize("letter let").unwrap(), vec![name("letter"), Token::Let, Token::Eof]);
}

#[test]
fn a_word_runs_on_over_letters_of_other_alphabets() {
    assert_eq!(tokenize("a\u{e9}\u{4eac} b").unwrap(), vec![name("a\u{e9}\u{4eac}"), name("b"), Token::Eof]);
    assert_eq!(tokenize("\u{e9}a").unwrap(), vec![name("a"), Token::Eof]);
}

#[test]
fn a_numeral_with_two_points_fails() {
    assert_eq!(tokenize("1.2.3"), Err(LexError::MalformedNumeral));
    assert_eq!(tokenize("x = 1..2"), Err(LexError::MalformedNumeral));
}

#[test]
fn a_numeral_with_a_foreign_digit_fails() {
    assert_eq!(tokenize("1\u{663}"), Err(LexError::MalformedNumeral));
    assert_eq!(tokenize("2\u{bd}"), Err(LexError::MalformedNumeral));
}

#[test]
fn parse_of_operands() {
    assert_eq!(parse(&tokenize("42").unwrap()), literal("42"));
    assert_eq!(parse(&tokenize("speed").unwrap()), Expr::Variable("speed".to_string()));
    assert_eq!(
        parse(&tokenize("let x = 5").unwrap()),
        Expr::Let("x".to_string(), Box::new(literal("5")))
    );
}

#[test]
fn parse_of_a_call() {
    assert_eq!(
        parse(&tokenize("max(1, x)").unwrap()),
        Expr::FunctionCall("max".to_string(), vec![literal("1"), Expr::Variable("x".to_string())])
    );
    assert_eq!(parse(&tokenize("f()").unwrap()), Expr::FunctionCall("f".to_string(), vec![]));
}

#[test]
fn parse_groups_operators_from_left_to_right() {
    let expected = Expr::BinaryOp(
        Box::new(Expr::BinaryOp(Box::new(literal("1")), BinOp::Add, Box::new(literal("2")))),
        BinOp::Multiply,
        Box::new(literal("3")),
    );
    assert_eq!(parse(&tokenize("1 + 2 * 3").unwrap()), expected);
}

#[test]
fn parse_falls_back_to_zero() {
    assert_eq!(parse(&tokenize("").unwrap()), Expr::zero());
    assert_eq!(parse(&tokenize(")").unwrap()), Expr::zero());
    assert_eq!(parse(&tokenize("let = 3").unwrap()), Expr::zero());
    assert_eq!(parse(&tokenize("let x 3").unwrap()), Expr::zero());
    assert_eq!(parse(&Vec::new()), Expr::zero());
}

#[test]
fn parse_of_an_unclosed_call_takes_the_end_marker_as_an_argument() {
    assert_eq!(
        parse(&tokenize("f(1").unwrap()),
        Expr::FunctionCall("f".to_string(), vec![literal("1"), Expr::zero()])
    );
}

#[test]
fn parse_reads_one_expression_only() {
    assert_eq!(parse(&tokenize("1 2 3").unwrap()), literal("1"));
    assert_eq!(
        parse(&tokenize("let x = 5; x + 1").unwrap()),
        Expr::Let("x".to_string(), Box::new(literal("5")))
    );
}

#[test]
fn let_binds_and_the_binding_lasts() {
    let mut context = Context::new();
    assert_eq!(run(&mut context, "let x = 5"), 5.0);
    assert_eq!(run(&mut context, "x + 1"), 6.0);
    assert_eq!(run(&mut context, "x"), 5.0);
}

#[test]
fn let_overwrites_an_earlier_binding() {
    let mut context = Context::new();
    assert_eq!(run(&mut context, "let x = 5"), 5.0);
    assert_eq!(run(&mut context, "let x = x * 2"), 10.0);
    assert_eq!(run(&mut context, "x"), 10.0);
    assert_eq!(
        context.get_variable(&"x".to_string()),
        Some(Number::from_bits(10.0f64.to_bits()))
    );
}

#[test]
fn unbound_variable_is_zero() {
    let mut context = Context::new();
    assert_eq!(run(&mut context, "y"), 0.0);
    let evaluation = context.eval_expr(&Expr::Variable("y".to_string())).unwrap();
    assert_eq!(evaluation.result, Operand::Number(Number::from_bits(0)));
    assert!(evaluation.steps.is_empty());
    assert!(evaluation.bindings.is_empty());
    assert_eq!(context.get_variable(&"y".to_string()), None);
}

#[test]
fn operators_have_no_precedence() {
    let mut context = Context::new();
    assert_eq!(run(&mut context, "1 + 2 * 3"), 9.0);
    assert_eq!(run(&mut context, "10 - 4 - 3"), 3.0);
    assert_eq!(run(&mut context, "8 / 2 / 2"), 2.0);
}

#[test]
fn predefined_functions() {
    let mut context = Context::new();
    assert!(context.has_function(&"sqrt".to_string()));
    assert!(context.has_function(&"max".to_string()));
    assert!(!context.has_function(&"min".to_string()));
    assert_eq!(run(&mut context, "sqrt(16)"), 4.0);
    assert_eq!(run(&mut context, "max(3, 7)"), 7.0);
    assert_eq!(run(&mut context, "max(7, 3)"), 7.0);
}

#[test]
fn only_the_first_two_arguments_count() {
    let mut context = Context::new();
    assert_eq!(run(&mut context, "max(1, 2, 99)"), 2.0);
    let expr = parse(&tokenize("max(1, 2, let z = 99)").unwrap());
    let evaluation = context.eval_expr(&expr).unwrap();
    assert_eq!(evaluation.steps.len(), 1);
    assert!(evaluation.bindings.is_empty());
}

#[test]
fn a_missing_second_argument_is_zero() {
    let mut context = Context::new();
    assert_eq!(run(&mut context, "max(5)"), 5.0);
    let evaluation = context.eval_expr(&parse(&tokenize("sqrt(9)").unwrap())).unwrap();
    assert_eq!(evaluation.steps[0].right, Operand::Number(Number::from_bits(0)));
    assert_eq!(evaluation.steps[0].operation, Operation::Call("sqrt".to_string()));
    assert_eq!(evaluation.result, Operand::Step(0));
}

#[test]
fn unknown_function_fails() {
    let context = Context::new();
    let expr = parse(&tokenize("min(1, 2)").unwrap());
    assert_eq!(context.eval_expr(&expr), Err(EvalError::UnknownFunction));
}

#[test]
fn call_without_argument_fails() {
    let context = Context::new();
    let expr = parse(&tokenize("sqrt()").unwrap());
    assert_eq!(context.eval_expr(&expr), Err(EvalError::MissingArgument));
    let unknown = parse(&tokenize("nothing()").unwrap());
    assert_eq!(context.eval_expr(&unknown), Err(EvalError::UnknownFunction));
}

#[test]
fn a_failed_evaluation_binds_nothing() {
    let context = Context::new();
    let expr = parse(&tokenize("max(let a = 1, min(2))").unwrap());
    assert_eq!(context.eval_expr(&expr), Err(EvalError::UnknownFunction));
    assert_eq!(context.get_variable(&"a".to_string()), None);
}

#[test]
fn a_let_inside_an_expression_is_seen_behind_it() {
    let mut context = Context::new();
    assert_eq!(run(&mut context, "max(let a = 4, a * a)"), 16.0);
    assert_eq!(run(&mut context, "a"), 4.0);
}

#[test]
fn steps_are_in_the_order_of_evaluation() {
    let context = Context::new();
    let expr = parse(&tokenize("max(1 + 2, 3 * 4)").unwrap());
    let evaluation = context.eval_expr(&expr).unwrap();
    assert_eq!(evaluation.steps.len(), 3);
    assert_eq!(evaluation.steps[0].operation, Operation::Binary(BinOp::Add));
    assert_eq!(evaluation.steps[1].operation, Operation::Binary(BinOp::Multiply));
    assert_eq!(evaluation.steps[2].operation, Operation::Call("max".to_string()));
    assert_eq!(evaluation.steps[2].left, Operand::Step(0));
    assert_eq!(evaluation.steps[2].right, Operand::Step(1));
    assert_eq!(evaluation.result, Operand::Step(2));
}

#[test]
fn evaluation_without_variables_is_the_same_every_time() {
    let line = "max(1.5 * 4, sqrt(2)) / 3 - 0.1";
    let mut first = Context::new();
    let mut second = Context::new();
    second.set_variable("unrelated".to_string(), Number::from_bits(7));
    let a = first.eval_expr(&parse(&tokenize(line).unwrap())).unwrap();
    let b = second.eval_expr(&parse(&tokenize(line).unwrap())).unwrap();
    assert_eq!(a, b);
    assert_eq!(run(&mut first, line).to_bits(), run(&mut second, line).to_bits());
    assert_eq!(run(&mut first, line).to_bits(), run(&mut first, line).to_bits());
}

#[test]
fn set_and_get_variable() {
    let mut context = Context::new();
    context.set_variable("a".to_string(), Number::read("1.5").unwrap());
    context.set_variable("b".to_string(), Number::from_bits(4));
    context.set_variable("a".to_string(), Number::from_bits(9));
    assert_eq!(context.get_variable(&"a".to_string()), Some(Number::from_bits(9)));
    assert_eq!(context.get_variable(&"b".to_string()), Some(Number::from_bits(4)));
    assert_eq!(context.get_variable(&"c".to_string()), None);
}

#[test]
fn division_by_zero_is_no_failure() {
    let mut context = Context::new();
    assert_eq!(run(&mut context, "1 / 0"), f64::INFINITY);
    assert!(run(&mut context, "0 / 0").is_nan());
}

#[test]
fn a_line_goes_through_all_three() {
    let mut context = Context::new();
    let evaluation = evaluate_line(&context, "let r = sqrt(2 + 2) * 3").unwrap();
    assert!(evaluation.is_well_formed());
    assert_eq!(evaluation.steps.len(), 3);
    assert_eq!(
        evaluation.bindings,
        vec![Binding { name: "r".to_string(), value: Operand::Step(2) }]
    );
    let values = carry_out(&evaluation);
    assert_eq!(value_of(&context.conclude(&evaluation, &values)), 6.0);
    assert_eq!(context.get_variable(&"r".to_string()), Some(Number::from_bits(6.0f64.to_bits())));
}

#[test]
fn a_line_fails_in_the_tokenizer_or_in_the_evaluator() {
    let context = Context::new();
    assert_eq!(evaluate_line(&context, "1.2.3"), Err(LineError::Lex(LexError::MalformedNumeral)));
    assert_eq!(evaluate_line(&context, "cube(3)"), Err(LineError::Eval(EvalError::UnknownFunction)));
    assert_eq!(evaluate_line(&context, "max()"), Err(LineError::Eval(EvalError::MissingArgument)));
    assert_eq!(
        evaluate_line(&context, "cube(1.2.3)"),
        Err(LineError::Lex(LexError::MalformedNumeral))
    );
}

#[test]
fn evaluations_made_by_hand_are_checked() {
    let good = Evaluation {
        steps: vec![Step {
            operation: Operation::Binary(BinOp::Add),
            left: Operand::Number(Number::from_bits(1)),
            right: Operand::Number(Number::read("2").unwrap()),
        }],
        result: Operand::Step(0),
        bindings: vec![Binding { name: "a".to_string(), value: Operand::Step(0) }],
    };
    assert!(good.is_well_formed());
    let forward = Evaluation {
        steps: vec![Step {
            operation: Operation::Binary(BinOp::Add),
            left: Operand::Step(0),
            right: Operand::Number(Number::from_bits(1)),
        }],
        result: Operand::Step(0),
        bindings: vec![],
    };
    assert!(!forward.is_well_formed());
    let dangling = Evaluation { steps: vec![], result: Operand::Step(0), bindings: vec![] };
    assert!(!dangling.is_well_formed());
    let unbound = Evaluation {
        steps: vec![],
        result: Operand::Number(Number::from_bits(0)),
        bindings: vec![Binding { name: "a".to_string(), value: Operand::Step(3) }],
    };
    assert!(!unbound.is_well_formed());
}

#[test]
fn a_literal_is_bound_as_it_was_written() {
    let mut context = Context::new();
    let evaluation = evaluate_line(&context, "let half = 0.50").unwrap();
    assert!(evaluation.steps.is_empty());
    assert_eq!(context.conclude(&evaluation, &Vec::new()), Number::read("0.50").unwrap());
    assert_eq!(
        context.get_variable(&"half".to_string()),
        Some(Number::read("0.50").unwrap())
    );
    assert_eq!(run(&mut context, "half * 4"), 2.0);
}
