use mymathboard::number::float_literal;
use mymathboard::number::one_bits;
use mymathboard::number::positive_bits;
use mymathboard::number::Number;
use mymathboard::number::NumberForm;
use mymathboard::radix::binary_to_decimal;
use mymathboard::radix::convert;
use mymathboard::radix::decimal_to_binary;
use mymathboard::radix::decimal_to_hex;
use mymathboard::radix::hex_to_decimal;
use mymathboard::text::chars_of;
use mymathboard::text::ends_with;
use mymathboard::text::starts_with;
use mymathboard::text::trim;
use mymathboard::text::trim_end;
use mymathboard::text::whitespace;

fn chars(s: &str) -> Vec<char> {
    s.chars().collect()
}

fn as_text(v: Vec<char>) -> String {
    v.into_iter().collect()
}

#[test]
fn whitespace_is_what_the_standard_library_says() {
    for n in 0..=0x10FFFFu32 {
        if let Some(c) = char::from_u32(n) {
            assert_eq!(whitespace(c), c.is_whitespace(), "{:x}", n);
        }
    }
}

#[test]
fn trim_is_what_the_standard_library_does() {
    for s in ["", " ", "a", " a", "a ", "  a b  ", "\t\na\u{a0}b\u{3000} ", "\u{2003}x\u{2003}", "   "] {
        assert_eq!(as_text(trim(&chars(s))), s.trim(), "{:?}", s);
        assert_eq!(as_text(trim_end(&chars(s))), s.trim_end(), "{:?}", s);
    }
}

#[test]
fn chars_of_a_text() {
    assert_eq!(chars_of("a\u{e9}\u{1f600}"), vec!['a', '\u{e9}', '\u{1f600}']);
    assert_eq!(chars_of(""), Vec::<char>::new());
}

#[test]
fn prefixes_and_suffixes() {
    assert!(starts_with(&chars("Point((1"), &chars("Point((")));
    assert!(!starts_with(&chars("Point("), &chars("Point((")));
    assert!(starts_with(&chars("abc"), &chars("")));
    assert!(ends_with(&chars("1))"), &chars("))")));
    assert!(!ends_with(&chars(")"), &chars("))")));
    assert!(!ends_with(&chars("1) )"), &chars("))")));
}

#[test]
fn float_literals() {
    assert!(float_literal(&chars("1.5e-3")));
    assert!(!float_literal(&chars("1.5e-")));
}

#[test]
fn sign_of_bit_patterns() {
    let cases: [f64; 12] = [
        0.0,
        -0.0,
        1.0,
        -1.0,
        5e-324,
        -5e-324,
        f64::MAX,
        f64::MIN,
        f64::INFINITY,
        f64::NEG_INFINITY,
        f64::NAN,
        -f64::NAN,
    ];
    for x in cases {
        assert_eq!(positive_bits(x.to_bits()), x > 0.0, "{:?}", x);
        assert_eq!(one_bits(x.to_bits()), x == 1.0, "{:?}", x);
    }
    assert!(!positive_bits(0x7FF0_0000_0000_0001));
    assert!(!positive_bits(0xFFFF_FFFF_FFFF_FFFF));
}

#[test]
fn numbers_are_the_same_by_form() {
    assert_eq!(Number::from_bits(1), Number::from_bits(1));
    assert_ne!(Number::from_bits(1), Number::from_bits(2));
    assert_eq!(Number::read("1.0"), Number::read("1.0"));
    assert_ne!(Number::read("1.0"), Number::read("1"));
    assert_ne!(Number::read("0").unwrap(), Number::from_bits(0));
    assert_eq!(Number::zero(), Number::from_bits(0));
}

#[test]
fn conversions_agree_with_the_standard_library() {
    let values: [i64; 9] = [0, 1, -1, 10, 255, -256, 1234567890123, i64::MAX, i64::MIN];
    for n in values {
        let decimal = n.to_string();
        assert_eq!(decimal_to_binary(&decimal), Some(format!("{:b}", n)));
        assert_eq!(decimal_to_hex(&decimal), Some(format!("{:X}", n)));
        let magnitude = (n as i128).unsigned_abs();
        let sign = if n < 0 { "-" } else { "" };
        assert_eq!(binary_to_decimal(&format!("{}{:b}", sign, magnitude)), Some(decimal.clone()));
        assert_eq!(hex_to_decimal(&format!("{}{:x}", sign, magnitude)), Some(decimal.clone()));
        assert_eq!(hex_to_decimal(&format!("{}{:X}", sign, magnitude)), Some(decimal.clone()));
    }
}

#[test]
fn readings_agree_with_the_standard_library() {
    for s in ["", "+", "-", "0", "-0", "+0", "12", "1a", "zz", "Z", "-7f", "+10", "1 ", "99999999999999999999", "१"] {
        for radix in [2u32, 10, 16, 36] {
            let expected = i64::from_str_radix(s, radix).ok().map(|n| n.to_string());
            assert_eq!(convert(s, radix, 10), expected, "{:?} in base {}", s, radix);
        }
    }
}

#[test]
fn other_bases() {
    assert_eq!(convert("255", 10, 8), Some("377".to_string()));
    assert_eq!(convert("zz", 36, 10), Some("1295".to_string()));
    assert_eq!(convert("35", 10, 36), Some("Z".to_string()));
}

#[test]
fn a_number_is_read_from_a_text_that_reads_as_one() {
    let n = Number::read("-12.5e3").unwrap();
    assert_eq!(n.form(), NumberForm::Literal("-12.5e3".to_string()));
    assert_eq!(Number::read("12,5"), None);
    assert_eq!(Number::read(""), None);
    assert_eq!(Number::read(" 1"), None);
    assert_eq!(Number::from_bits(42).form(), NumberForm::Bits(42));
    assert_eq!(Number::zero().form(), NumberForm::Bits(0));
    assert_eq!(n.clone(), n);
    assert_eq!(n.duplicate(), n);
}

fn every_text(alphabet: &[char], longest: usize) -> Vec<String> {
    let mut all: Vec<String> = vec![String::new()];
    let mut last: Vec<String> = vec![String::new()];
    for _ in 0..longest {
        let mut next: Vec<String> = Vec::new();
        for s in &last {
            for c in alphabet {
                let mut t = s.clone();
                t.push(*c);
                next.push(t);
            }
        }
        all.extend(next.iter().cloned());
        last = next;
    }
    all
}

#[test]
fn short_texts_read_as_numbers_just_as_the_standard_library_reads_them() {
    let alphabet = ['0', '7', '.', 'e', 'E', '+', '-', 'i', 'n', 'f', 'a'];
    for s in every_text(&alphabet, 5) {
        assert_eq!(Number::read(&s).is_some(), s.parse::<f64>().is_ok(), "{:?}", s);
    }
}

#[test]
fn words_for_special_values_read_as_the_standard_library_reads_them() {
    let alphabet = ['i', 'n', 'f', 't', 'y', 'a', 'N', 'I', '-'];
    for s in every_text(&alphabet, 4) {
        assert_eq!(Number::read(&s).is_some(), s.parse::<f64>().is_ok(), "{:?}", s);
    }
    for s in ["infinity", "INFINITY", "-Infinity", "+iNfInItY", "infinit", "infinityy", "nanx"] {
        assert_eq!(Number::read(s).is_some(), s.parse::<f64>().is_ok(), "{:?}", s);
    }
}

#[test]
fn short_texts_read_as_integers_just_as_the_standard_library_reads_them() {
    let alphabet = ['+', '-', '0', '1', '9', 'a', 'F', 'z', ' '];
    for s in every_text(&alphabet, 4) {
        for radix in [2u32, 10, 16] {
            let expected = i64::from_str_radix(&s, radix).ok().map(|n| n.to_string());
            assert_eq!(convert(&s, radix, 10), expected, "{:?} in base {}", s, radix);
        }
    }
}

#[test]
fn converters_undo_each_other() {
    let values: [i64; 7] = [0, 1, 10, 255, 48879, 1234567890123, i64::MAX];
    for n in values {
        let decimal = n.to_string();
        for (from, to) in [(10u32, 2u32), (10, 16), (10, 36), (2, 16), (16, 2), (16, 10), (7, 3)] {
            let first = convert(&decimal, 10, from).unwrap();
            let there = convert(&first, from, to).unwrap();
            assert_eq!(convert(&there, to, from), Some(first.clone()), "{} from {} to {}", n, from, to);
            assert_eq!(convert(&there, to, 10), Some(decimal.clone()));
        }
    }
    assert_eq!(hex_to_decimal(&decimal_to_hex("48879").unwrap()), Some("48879".to_string()));
    assert_eq!(decimal_to_hex("48879"), Some("BEEF".to_string()));
    assert_eq!(binary_to_decimal(&decimal_to_binary("1000").unwrap()), Some("1000".to_string()));
    assert_eq!(decimal_to_binary("1000"), Some("1111101000".to_string()));
    // A negative number is written as a pattern of 64 bits, which reads back as no such number.
    assert_eq!(decimal_to_hex("-1"), Some("FFFFFFFFFFFFFFFF".to_string()));
    assert_eq!(hex_to_decimal("FFFFFFFFFFFFFFFF"), None);
}
