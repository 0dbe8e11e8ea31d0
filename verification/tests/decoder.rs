use mymathboard::decoder::decode_list;
use mymathboard::decoder::parse_point;
use mymathboard::decoder::parse_value;
use mymathboard::number::Number;
use mymathboard::number::NumberForm;
use mymathboard::value::Array;
use mymathboard::value::Point;
use mymathboard::value::ReplResult;

fn lit(text: &str) -> Number {
    Number::read(text).unwrap()
}

fn num(text: &str) -> ReplResult {
    ReplResult::Number(lit(text))
}

fn point(x: &str, y: &str) -> ReplResult {
    ReplResult::Point(Point { x: lit(x), y: lit(y) })
}

fn literal_value(n: &Number) -> f64 {
    match n.form() {
        NumberForm::Literal(text) => text.parse::<f64>().unwrap(),
        NumberForm::Bits(bits) => f64::from_bits(bits),
    }
}

#[test]
fn point_literal() {
    let p = parse_point("Point((1, 2))").unwrap();
    assert_eq!(p, Point { x: lit("1"), y: lit("2") });
    assert_eq!(literal_value(&p.x), 1.0);
    assert_eq!(literal_value(&p.y), 2.0);
}

#[test]
fn point_literal_with_space() {
    assert_eq!(parse_point("  Point((  -1.5 ,2e3  ))  "), Some(Point { x: lit("-1.5"), y: lit("2e3") }));
    assert_eq!(parse_point("Point((1,2))"), Some(Point { x: lit("1"), y: lit("2") }));
}

#[test]
fn what_is_no_point_literal() {
    for text in [
        "",
        "Point",
        "Point(())",
        "Point((1))",
        "Point((1, 2, 3))",
        "Point((1, ))",
        "Point((, 2))",
        "Point((a, 2))",
        "Point((1, 2)))x",
        "point((1, 2))",
        "Point ((1, 2))",
        "Point((1, 2) )",
        "Point(1, 2)",
        "Point((1 2))",
        "Point((",
        "Point(()",
        "Point(())x",
        "1, 2",
    ] {
        assert_eq!(parse_point(text), None, "{:?}", text);
    }
}

#[test]
fn values_in_their_order_of_priority() {
    assert_eq!(parse_value("Point((1, 2))"), Some(point("1", "2")));
    assert_eq!(parse_value("3"), Some(num("3")));
    assert_eq!(parse_value("-0.5e-3"), Some(num("-0.5e-3")));
    assert_eq!(parse_value("true"), Some(ReplResult::Boolean(true)));
    assert_eq!(parse_value("false"), Some(ReplResult::Boolean(false)));
    assert_eq!(parse_value("nan"), Some(num("nan")));
    assert_eq!(parse_value("inf"), Some(num("inf")));
}

#[test]
fn values_that_are_nothing() {
    for text in ["", "True", "yes", "1 2", " 3", "3 ", "abc", "0x10", "1,5", "()", "List(1)"] {
        assert_eq!(parse_value(text), None, "{:?}", text);
    }
}

#[test]
fn number_texts_are_those_that_read_as_floats() {
    let accepted = [
        "0", "1", "007", "1.", ".5", "1.5", "+1", "-1", "1e5", "1E5", "1e+5", "1e-5", "1.e5",
        ".5e5", "inf", "INF", "Inf", "-inf", "+inf", "infinity", "Infinity", "-INFINITY", "nan",
        "NaN", "-nan", "+NaN", "1e400", "1e-400", "123456789012345678901234567890",
    ];
    let refused = [
        "", "+", "-", ".", "e5", "1e", "1e+", "+.", "-e1", ".e5", "1.5.2", "1..5", "1_000", " 1",
        "1 ", "1f64", "0x10", "infinit", "in", "nane", "++1", "+-1", "1e5.5", "1e5e5", "--inf",
        "١",
    ];
    for text in accepted {
        assert!(text.parse::<f64>().is_ok(), "{:?}", text);
        assert_eq!(parse_value(text), Some(num(text)), "{:?}", text);
    }
    for text in refused {
        assert!(text.parse::<f64>().is_err(), "{:?}", text);
        assert_eq!(parse_value(text), None, "{:?}", text);
    }
}

#[test]
fn list_of_a_point_a_number_and_a_truth_value() {
    let list = decode_list("Point((1, 2)), 3, true");
    assert_eq!(list.items.len(), 3);
    assert_eq!(list, Array { items: vec![point("1", "2"), num("3"), ReplResult::Boolean(true)] });
}

#[test]
fn items_that_are_nothing_are_left_out() {
    assert_eq!(
        decode_list("1, two, 3, , Point((4)), false,"),
        Array { items: vec![num("1"), num("3"), ReplResult::Boolean(false)] }
    );
    assert_eq!(decode_list("a, b, c"), Array { items: vec![] });
}

#[test]
fn empty_lists() {
    assert_eq!(decode_list(""), Array { items: vec![] });
    assert_eq!(decode_list("   "), Array { items: vec![] });
    assert_eq!(decode_list(",,,"), Array { items: vec![] });
}

#[test]
fn commas_inside_parentheses_do_not_part() {
    assert_eq!(
        decode_list("Point((1,2)),Point((3,4))"),
        Array { items: vec![point("1", "2"), point("3", "4")] }
    );
    assert_eq!(decode_list("(1, 2), 3"), Array { items: vec![num("3")] });
    assert_eq!(decode_list("(1, 2, 3"), Array { items: vec![] });
}

#[test]
fn a_closing_parenthesis_too_many_counts_for_nothing() {
    assert_eq!(decode_list("), 1, ))), 2"), Array { items: vec![num("1"), num("2")] });
    assert_eq!(
        decode_list("1), Point((2, 3))"),
        Array { items: vec![point("2", "3")] }
    );
}

#[test]
fn space_around_the_list_and_its_items() {
    assert_eq!(
        decode_list("   1 ,\t2\n, true   "),
        Array { items: vec![num("1"), num("2"), ReplResult::Boolean(true)] }
    );
}

#[test]
fn source_of_a_list_reads_as_the_same_list() {
    for text in [
        "1, 2.5, true",
        "  false,7 ,  -1e3,nope, inf",
        "Point((1, 2)), 3, true",
        "x, Point(( 1 ,2 )) ,",
        "",
    ] {
        let list = decode_list(text);
        let source = list.to_source().unwrap();
        let again = decode_list(&source);
        assert_eq!(again, list, "{:?}", text);
        assert_eq!(again.items.len(), list.items.len());
        assert_eq!(again.to_source().unwrap(), source);
    }
}

#[test]
fn source_of_a_list() {
    assert_eq!(decode_list(" 1,true ,Point(( 2,3 ))").to_source().unwrap(), "1, true, Point((2, 3))");
    assert_eq!(decode_list("").to_source().unwrap(), "");
    assert_eq!(decode_list("7").to_source().unwrap(), "7");
}

#[test]
fn what_has_no_source() {
    assert_eq!(Array { items: vec![ReplResult::Empty] }.to_source(), None);
    assert_eq!(Array { items: vec![num("1"), ReplResult::String("s".to_string())] }.to_source(), None);
    assert_eq!(
        Array { items: vec![ReplResult::List(Array { items: vec![] })] }.to_source(),
        None
    );
}
