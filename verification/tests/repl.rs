use evalexpr::EvalexprError;
use evalexpr::Value;
use mymathboard::builtin::ArgError;
use mymathboard::builtin::Builtin;
use mymathboard::builtin::Datum;
use mymathboard::builtin::Elementary;
use mymathboard::builtin::Plan;
use mymathboard::builtin::Reciprocal;
use mymathboard::number::Number;
use mymathboard::number::NumberForm;
use mymathboard::repl::call_builtin;
use mymathboard::repl::interpret;
use mymathboard::repl::plan_for;
use mymathboard::repl::Repl;
use mymathboard::value::Array;
use mymathboard::value::Point;
use mymathboard::value::ReplError;
use mymathboard::value::ReplResult;

fn elementary(function: Elementary, x: f64) -> f64 {
    match function {
        Elementary::Sin => x.sin(),
        Elementary::Cos => x.cos(),
        Elementary::Tan => x.tan(),
        Elementary::Asin => x.asin(),
        Elementary::Acos => x.acos(),
        Elementary::Atan => x.atan(),
        Elementary::Sinh => x.sinh(),
        Elementary::Cosh => x.cosh(),
        Elementary::Tanh => x.tanh(),
        Elementary::Asinh => x.asinh(),
        Elementary::Acosh => x.acosh(),
        Elementary::Atanh => x.atanh(),
        Elementary::Exp => x.exp(),
    }
}

fn float_value(number: &Number) -> f64 {
    match number.form() {
        NumberForm::Literal(text) => text.parse::<f64>().unwrap(),
        NumberForm::Bits(bits) => f64::from_bits(bits),
    }
}

fn realise(plan: Plan) -> Value {
    match plan {
        Plan::Apply { function, reciprocal, argument } => {
            let x = f64::from_bits(argument);
            Value::Float(match reciprocal {
                Reciprocal::Nowhere => elementary(function, x),
                Reciprocal::OfArgument => elementary(function, 1.0 / x),
                Reciprocal::OfResult => 1.0 / elementary(function, x),
            })
        }
        Plan::Logarithm { value, base } => {
            Value::Float(f64::from_bits(value).log(f64::from_bits(base)))
        }
        Plan::Power { base, exponent } => {
            Value::Float(f64::from_bits(base).powf(f64::from_bits(exponent)))
        }
        Plan::Pair { x, y } => {
            Value::Tuple(vec![Value::Float(f64::from_bits(x)), Value::Float(f64::from_bits(y))])
        }
        Plan::Text(text) => Value::String(text),
        Plan::Show(number) => Value::String(format!("{:?}", float_value(&number))),
    }
}

fn silent(plan: Plan) -> Value {
    match plan {
        Plan::Show(_) => Value::Empty,
        other => realise(other),
    }
}

fn engine() -> Repl<fn(Plan) -> Value> {
    Repl::new(realise as fn(Plan) -> Value)
}

fn computed(x: f64) -> ReplResult {
    ReplResult::Number(Number::from_bits(x.to_bits()))
}

fn float_of(result: Result<ReplResult, ReplError>) -> f64 {
    match result {
        Ok(ReplResult::Number(n)) => match n.form() {
            NumberForm::Bits(bits) => f64::from_bits(bits),
            other => panic!("no computed number: {:?}", other),
        },
        other => panic!("no computed number: {:?}", other),
    }
}

fn refused(result: Result<ReplResult, ReplError>) -> EvalexprError {
    match result {
        Err(ReplError::Evaluator(error)) => error,
        other => panic!("the evaluator did not refuse: {:?}", other),
    }
}

fn text(s: &str) -> Result<ReplResult, ReplError> {
    Ok(ReplResult::String(s.to_string()))
}

#[test]
fn a_new_engine_reads_lists() {
    assert!(engine().reads_lists());
}

#[test]
fn a_new_engine_has_every_function_and_no_variable() {
    let mut repl = engine();
    for builtin in Builtin::all() {
        let line = format!("{}(0)", builtin.name());
        match repl.process_input(&line) {
            Err(ReplError::Evaluator(EvalexprError::FunctionIdentifierNotFound(name))) => {
                panic!("{} is not installed", name)
            }
            _ => {}
        }
    }
    assert_eq!(
        refused(repl.process_input("x")),
        EvalexprError::VariableIdentifierNotFound("x".to_string())
    );
}

#[test]
fn plain_arithmetic_goes_to_the_evaluator() {
    let mut repl = engine();
    assert_eq!(repl.process_input("1 + 2"), Ok(computed(3.0)));
    assert_eq!(repl.process_input("1.5 * 2"), Ok(computed(3.0)));
    assert_eq!(repl.process_input("7 / 2"), Ok(computed(3.0)));
    assert_eq!(repl.process_input("7 / 2.0"), Ok(computed(3.5)));
}

#[test]
fn assignments_last_across_lines() {
    let mut repl = engine();
    assert_eq!(repl.process_input("x = 5"), Ok(ReplResult::Empty));
    assert_eq!(repl.process_input("x + 1"), Ok(computed(6.0)));
}

#[test]
fn other_kinds_of_value() {
    let mut repl = engine();
    assert_eq!(repl.process_input("1 < 2"), Ok(ReplResult::Boolean(true)));
    assert_eq!(repl.process_input("\"abc\""), text("abc"));
    assert_eq!(repl.process_input(""), Ok(ReplResult::Empty));
    assert_eq!(
        repl.process_input("(1, 2.5)"),
        Ok(ReplResult::Point(Point {
            x: Number::from_bits(1.0f64.to_bits()),
            y: Number::from_bits(2.5f64.to_bits())
        }))
    );
    assert_eq!(repl.process_input("(1, true)"), Err(ReplError::InvalidType));
    assert_eq!(repl.process_input("(\"a\", 1)"), Err(ReplError::InvalidType));
}

#[test]
fn sine_cosine_power_logarithm() {
    let mut repl = engine();
    assert_eq!(repl.process_input("sin(0)"), Ok(computed(0.0)));
    assert_eq!(repl.process_input("cos(0)"), Ok(computed(1.0)));
    assert_eq!(repl.process_input("pow(2, 10)"), Ok(computed(1024.0)));
    assert!((float_of(repl.process_input("log(8, 2)")) - 3.0).abs() < 1e-12);
    assert_eq!(repl.process_input("sin(0.0)"), Ok(computed(0.0)));
    assert_eq!(repl.process_input("tanh(0)"), Ok(computed(0.0)));
}

#[test]
fn logarithm_outside_its_domain_fails() {
    let mut repl = engine();
    let expected = EvalexprError::ExpectedNumber { actual: Value::Empty };
    assert_eq!(refused(repl.process_input("log(-1, 2)")), expected);
    assert_eq!(refused(repl.process_input("log(8, 1)")), expected);
    assert_eq!(refused(repl.process_input("log(0, 2)")), expected);
    assert_eq!(refused(repl.process_input("log(8)")), expected);
}

#[test]
fn conversions_through_the_engine() {
    let mut repl = engine();
    assert_eq!(repl.process_input("decimal_to_binary(\"10\")"), text("1010"));
    assert_eq!(repl.process_input("hex_to_decimal(\"FF\")"), text("255"));
    assert_eq!(repl.process_input("binary_to_decimal(\"1010\")"), text("10"));
    assert_eq!(repl.process_input("decimal_to_hex(\"255\")"), text("FF"));
    assert_eq!(
        repl.process_input("hex_to_decimal(decimal_to_hex(\"48879\"))"),
        text("48879")
    );
    assert_eq!(
        refused(repl.process_input("decimal_to_binary(10)")),
        EvalexprError::ExpectedString { actual: Value::Empty }
    );
    assert_eq!(
        refused(repl.process_input("decimal_to_binary(\"ten\")")),
        EvalexprError::ExpectedNumber { actual: Value::Empty }
    );
}

#[test]
fn reciprocal_of_zero_is_infinite() {
    let mut repl = engine();
    assert_eq!(float_of(repl.process_input("cosec(0)")), f64::INFINITY);
    assert_eq!(float_of(repl.process_input("cot(0)")), f64::INFINITY);
    assert_eq!(float_of(repl.process_input("cosech(0)")), f64::INFINITY);
    assert!(float_of(repl.process_input("acosec(0)")).is_nan());
    assert_eq!(float_of(repl.process_input("sec(0)")), 1.0);
}

#[test]
fn inverse_reciprocal_of_a_whole_number() {
    let mut repl = engine();
    assert_eq!(float_of(repl.process_input("acosec(2)")), (0.5f64).asin());
    assert_eq!(float_of(repl.process_input("acot(4)")), (0.25f64).atan());
}

#[test]
fn functions_refuse_the_wrong_kind() {
    let mut repl = engine();
    let number = EvalexprError::ExpectedNumber { actual: Value::Empty };
    let tuple = EvalexprError::ExpectedTuple { actual: Value::Empty };
    assert_eq!(refused(repl.process_input("sin(\"a\")")), number);
    assert_eq!(refused(repl.process_input("sin(true)")), number);
    assert_eq!(refused(repl.process_input("sin(1, 2)")), number);
    assert_eq!(refused(repl.process_input("exp(1)")), tuple);
    assert_eq!(refused(repl.process_input("pow(2)")), tuple);
    assert_eq!(refused(repl.process_input("pow(2, \"a\")")), number);
}

#[test]
fn point_function() {
    let mut repl = engine();
    assert_eq!(
        repl.process_input("Point((1, 2))"),
        Ok(ReplResult::Point(Point {
            x: Number::from_bits(1.0f64.to_bits()),
            y: Number::from_bits(2.0f64.to_bits())
        }))
    );
    assert_eq!(
        refused(repl.process_input("Point(1)")),
        EvalexprError::ExpectedTuple { actual: Value::Empty }
    );
}

#[test]
fn other_failures_of_the_evaluator() {
    let mut repl = engine();
    assert_eq!(
        refused(repl.process_input("nothing(1)")),
        EvalexprError::FunctionIdentifierNotFound("nothing".to_string())
    );
    assert_eq!(
        refused(repl.process_input("unbound + 1")),
        EvalexprError::VariableIdentifierNotFound("unbound".to_string())
    );
    assert_eq!(refused(repl.process_input("(1 + 2")), EvalexprError::UnmatchedLBrace);
    assert!(matches!(
        refused(repl.process_input("1 + true")),
        EvalexprError::ExpectedNumberOrString { .. }
    ));
}

#[test]
fn the_functions_of_the_evaluator_itself_are_off() {
    let mut repl = engine();
    assert_eq!(
        refused(repl.process_input("str::substring(\"\u{e9}\", 0, 1)")),
        EvalexprError::FunctionIdentifierNotFound("str::substring".to_string())
    );
    assert_eq!(
        refused(repl.process_input("shl(1, 64)")),
        EvalexprError::FunctionIdentifierNotFound("shl".to_string())
    );
    assert_eq!(
        refused(repl.process_input("math::sin(0)")),
        EvalexprError::FunctionIdentifierNotFound("math::sin".to_string())
    );
    assert_eq!(
        refused(repl.process_input("min(1, 2)")),
        EvalexprError::FunctionIdentifierNotFound("min".to_string())
    );
}

#[test]
fn list_literal_through_the_engine() {
    let mut repl = engine();
    let result = repl.process_input("pts = List(Point((1, 2)), 3, true)").unwrap();
    let expected = ReplResult::List(Array {
        items: vec![
            ReplResult::Point(Point {
                x: Number::read("1").unwrap(),
                y: Number::read("2").unwrap(),
            }),
            ReplResult::Number(Number::read("3").unwrap()),
            ReplResult::Boolean(true),
        ],
    });
    assert_eq!(result, expected);
    assert_eq!(
        repl.process_input("pts"),
        text("List([Point(Point { x: 1.0, y: 2.0 }), Number(3.0), Boolean(true)])")
    );
}

#[test]
fn numbers_of_a_list_are_shown_as_the_values_they_are() {
    let mut repl = engine();
    assert!(repl.process_input("a = List(1, true)").is_ok());
    assert_eq!(repl.process_input("a"), text("List([Number(1.0), Boolean(true)])"));
    assert!(repl.process_input("b = List(1e3, 0.50, -0, 1e21, inf, +.5)").is_ok());
    assert_eq!(
        repl.process_input("b"),
        text("List([Number(1000.0), Number(0.5), Number(-0.0), Number(1e21), Number(inf), Number(0.5)])")
    );
}

#[test]
fn a_number_is_shown_as_written_where_the_caller_gives_no_text() {
    let mut repl = Repl::new(silent as fn(Plan) -> Value);
    assert!(repl.process_input("a = List(1, Point((2, 3.50)))").is_ok());
    assert_eq!(
        repl.process_input("a"),
        text("List([Number(1), Point(Point { x: 2, y: 3.50 })])")
    );
}

#[test]
fn list_literal_with_space_and_trailing_newline() {
    let mut repl = engine();
    assert!(repl.process_input("  a_1   =   List   ( 1 ,  2 )  \n").is_err());
    let result = repl.process_input("a_1   =   List   ( 1 ,  2 )  \n").unwrap();
    assert_eq!(
        result,
        ReplResult::List(Array {
            items: vec![
                ReplResult::Number(Number::read("1").unwrap()),
                ReplResult::Number(Number::read("2").unwrap()),
            ],
        })
    );
    assert_eq!(repl.process_input("a_1"), text("List([Number(1.0), Number(2.0)])"));
}

#[test]
fn empty_list_literal() {
    let mut repl = engine();
    assert_eq!(repl.process_input("e = List()"), Ok(ReplResult::List(Array { items: vec![] })));
    assert_eq!(repl.process_input("e"), text("List([])"));
}

#[test]
fn a_list_can_be_bound_anew() {
    let mut repl = engine();
    assert!(repl.process_input("l = List(1)").is_ok());
    assert!(repl.process_input("l = List(2, 3)").is_ok());
    assert_eq!(repl.process_input("l"), text("List([Number(2.0), Number(3.0)])"));
}

#[test]
fn a_list_takes_the_place_of_a_number() {
    let mut repl = engine();
    assert_eq!(repl.process_input("n = 5"), Ok(ReplResult::Empty));
    assert_eq!(repl.process_input("m = 7"), Ok(ReplResult::Empty));
    assert_eq!(repl.process_input("s = \"kept\""), Ok(ReplResult::Empty));
    assert_eq!(
        repl.process_input("n = List(1, 2)"),
        Ok(ReplResult::List(Array {
            items: vec![
                ReplResult::Number(Number::read("1").unwrap()),
                ReplResult::Number(Number::read("2").unwrap()),
            ],
        }))
    );
    assert_eq!(repl.process_input("n"), text("List([Number(1.0), Number(2.0)])"));
    assert_eq!(repl.process_input("m"), Ok(computed(7.0)));
    assert_eq!(repl.process_input("s"), text("kept"));
    assert_eq!(repl.process_input("sin(0)"), Ok(computed(0.0)));
    assert_eq!(repl.process_input("m + 1"), Ok(computed(8.0)));
}

#[test]
fn a_list_takes_the_place_of_a_value_of_any_kind() {
    let mut repl = engine();
    assert_eq!(repl.process_input("b = true"), Ok(ReplResult::Empty));
    assert_eq!(repl.process_input("t = (1, 2)"), Ok(ReplResult::Empty));
    assert_eq!(repl.process_input("f = 1.5"), Ok(ReplResult::Empty));
    assert_eq!(repl.process_input("s = \"text\""), Ok(ReplResult::Empty));
    for name in ["b", "t", "f", "s", "fresh"] {
        assert!(repl.create_list(name, "1").is_ok());
        assert_eq!(repl.process_input(name), text("List([Number(1.0)])"));
    }
    assert_eq!(repl.process_input("b = false"), Err(ReplError::Evaluator(
        EvalexprError::ExpectedString { actual: Value::Boolean(false) }
    )));
}

#[test]
fn a_list_is_no_operand() {
    let mut repl = engine();
    assert!(repl.process_input("l = List(1, 2)").is_ok());
    assert!(matches!(
        refused(repl.process_input("l + 1")),
        EvalexprError::WrongTypeCombination { .. }
    ));
}

#[test]
fn create_list_keeps_its_text() {
    let mut repl = engine();
    let result = repl.create_list("k", "true, nope, 2.5").unwrap();
    assert_eq!(
        result,
        ReplResult::List(Array {
            items: vec![
                ReplResult::Boolean(true),
                ReplResult::Number(Number::read("2.5").unwrap()),
            ],
        })
    );
    assert_eq!(repl.process_input("k"), text("List([Boolean(true), Number(2.5)])"));
}

#[test]
fn interpret_every_kind() {
    assert_eq!(interpret(Datum::Empty), Ok(ReplResult::Empty));
    assert_eq!(interpret(Datum::Boolean(false)), Ok(ReplResult::Boolean(false)));
    assert_eq!(interpret(Datum::Number(7)), Ok(ReplResult::Number(Number::from_bits(7))));
    assert_eq!(interpret(Datum::Text("t".to_string())), text("t"));
    assert_eq!(
        interpret(Datum::Tuple(vec![Some(1), Some(2), None])),
        Ok(ReplResult::Point(Point { x: Number::from_bits(1), y: Number::from_bits(2) }))
    );
    assert_eq!(interpret(Datum::Tuple(vec![Some(1)])), Err(ReplError::InvalidType));
    assert_eq!(interpret(Datum::Tuple(vec![])), Err(ReplError::InvalidType));
    assert_eq!(interpret(Datum::Tuple(vec![Some(1), None])), Err(ReplError::InvalidType));
    assert_eq!(interpret(Datum::Tuple(vec![None, Some(1)])), Err(ReplError::InvalidType));
}

#[test]
fn plan_for_values_of_the_evaluator() {
    assert_eq!(
        plan_for(Builtin::Sin, &Value::Int(2)),
        Ok(Plan::Apply {
            function: Elementary::Sin,
            reciprocal: Reciprocal::Nowhere,
            argument: 2.0f64.to_bits()
        })
    );
    assert_eq!(
        plan_for(Builtin::Sin, &Value::Float(0.25)),
        Ok(Plan::Apply {
            function: Elementary::Sin,
            reciprocal: Reciprocal::Nowhere,
            argument: 0.25f64.to_bits()
        })
    );
    assert_eq!(plan_for(Builtin::Sin, &Value::Boolean(true)), Err(ArgError::ExpectedNumber));
    assert_eq!(plan_for(Builtin::Sin, &Value::Empty), Err(ArgError::ExpectedNumber));
    assert_eq!(
        plan_for(Builtin::Pow, &Value::Tuple(vec![Value::Int(2), Value::Float(0.5)])),
        Ok(Plan::Power { base: 2.0f64.to_bits(), exponent: 0.5f64.to_bits() })
    );
    assert_eq!(
        plan_for(Builtin::Pow, &Value::Tuple(vec![Value::Int(2), Value::Boolean(true)])),
        Err(ArgError::ExpectedNumber)
    );
    assert_eq!(
        plan_for(Builtin::HexToDecimal, &Value::String("10".to_string())),
        Ok(Plan::Text("16".to_string()))
    );
}

#[test]
fn what_the_engine_sees_of_a_value() {
    assert_eq!(
        plan_for(Builtin::Point, &Value::Tuple(vec![Value::Int(1), Value::Float(2.5), Value::Empty])),
        Ok(Plan::Pair { x: 1.0f64.to_bits(), y: 2.5f64.to_bits() })
    );
    assert_eq!(
        plan_for(Builtin::Point, &Value::Tuple(vec![Value::String("1".to_string()), Value::Int(2)])),
        Err(ArgError::ExpectedNumber)
    );
    assert_eq!(
        plan_for(Builtin::Point, &Value::Tuple(vec![Value::Tuple(vec![]), Value::Int(2)])),
        Err(ArgError::ExpectedNumber)
    );
    assert_eq!(plan_for(Builtin::Point, &Value::Tuple(vec![])), Err(ArgError::ExpectedTuple));
    assert_eq!(plan_for(Builtin::Point, &Value::Empty), Err(ArgError::ExpectedTuple));
    assert_eq!(plan_for(Builtin::DecimalToHex, &Value::Boolean(true)), Err(ArgError::ExpectedString));
    assert_eq!(plan_for(Builtin::DecimalToHex, &Value::Int(10)), Err(ArgError::ExpectedString));
}

#[test]
fn a_builtin_called_with_a_value() {
    assert_eq!(call_builtin(Builtin::Cos, &Value::Int(0), realise), Ok(Value::Float(1.0)));
    assert_eq!(
        call_builtin(Builtin::DecimalToBinary, &Value::String("10".to_string()), realise),
        Ok(Value::String("1010".to_string()))
    );
    assert_eq!(
        call_builtin(Builtin::Log, &Value::Tuple(vec![Value::Int(-1), Value::Int(2)]), realise),
        Err(EvalexprError::ExpectedNumber { actual: Value::Empty })
    );
    assert_eq!(
        call_builtin(Builtin::Log, &Value::Tuple(vec![Value::Int(8), Value::Int(1)]), realise),
        Err(EvalexprError::ExpectedNumber { actual: Value::Empty })
    );
    assert_eq!(
        call_builtin(Builtin::HexToDecimal, &Value::Int(1), realise),
        Err(EvalexprError::ExpectedString { actual: Value::Empty })
    );
    assert_eq!(
        call_builtin(Builtin::Pow, &Value::Int(1), realise),
        Err(EvalexprError::ExpectedTuple { actual: Value::Empty })
    );
}

#[test]
fn a_function_can_be_installed_anew() {
    let mut repl = engine();
    assert_eq!(repl.process_input("x = 3"), Ok(ReplResult::Empty));
    assert_eq!(repl.install(Builtin::Cos), Ok(()));
    assert_eq!(repl.process_input("cos(0)"), Ok(computed(1.0)));
    repl.setup_math_functions();
    assert_eq!(repl.process_input("sin(0)"), Ok(computed(0.0)));
    assert_eq!(repl.process_input("x"), Ok(computed(3.0)));
}

#[test]
fn a_converter_answers_with_its_text_whatever_the_caller_does() {
    let mute = |_plan: Plan| Value::Empty;
    assert_eq!(
        call_builtin(Builtin::DecimalToBinary, &Value::String("10".to_string()), mute),
        Ok(Value::String("1010".to_string()))
    );
    assert_eq!(
        call_builtin(Builtin::HexToDecimal, &Value::String("FF".to_string()), mute),
        Ok(Value::String("255".to_string()))
    );
    assert_eq!(
        call_builtin(Builtin::HexToDecimal, &Value::String("G".to_string()), mute),
        Err(EvalexprError::ExpectedNumber { actual: Value::Empty })
    );
    assert_eq!(call_builtin(Builtin::Cos, &Value::Int(0), mute), Ok(Value::Empty));
    let mut repl = Repl::new(mute);
    assert_eq!(repl.process_input("decimal_to_hex(\"255\")"), Ok(ReplResult::String("FF".to_string())));
    assert_eq!(repl.process_input("cos(0)"), Ok(ReplResult::Empty));
}
