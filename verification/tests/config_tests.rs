//! Tests of the configuration parser: numbers, ratios, the string
//! fallback, G-code blocks, and the serialise–reparse round trip.

use gantry::config::{Config, Value};

fn parse_one_value(text: &str) -> Value {
    let cfg = Config::parse(text).expect("the configuration should parse");
    assert_eq!(cfg.sections.len(), 1);
    assert_eq!(cfg.sections[0].values.len(), 1);
    cfg.sections[0].values[0].1.clone()
}

fn number_of(v: &Value) -> i64 {
    match v {
        Value::Number(n) => *n,
        other => panic!("expected a number, got {:?}", other),
    }
}

fn ratio_of(v: &Value) -> i64 {
    match v {
        Value::Ratio(n) => *n,
        other => panic!("expected a ratio, got {:?}", other),
    }
}

#[test]
fn number_round_trip() {
    let cases: &[(&str, i64)] = &[
        ("0", 0),
        ("-0", 0),
        ("1", 1_000_000),
        ("1.0", 1_000_000),
        ("1.23e-02", 12_300),
        ("9_999_999_999", 9_999_999_999_000_000),
    ];
    for (text, micro) in cases {
        let input = format!("[a]\nk: {}\n", text);
        let v = parse_one_value(&input);
        assert_eq!(number_of(&v), *micro, "parsing {}", text);
        // Value-level round trip: serialise, reparse, same number.
        let cfg = Config::parse(&input).unwrap();
        let again = Config::parse(&cfg.serialise()).unwrap();
        assert_eq!(number_of(&again.sections[0].values[0].1), *micro);
    }
}

#[test]
fn ratio_chains_multiply() {
    let cases: &[(&str, i64)] = &[
        ("5:1", 5_000_000),
        ("57:2", 28_500_000),
        ("80:10, 2:1", 16_000_000),
        ("90:1, 56:7, 45:2", 16_200_000_000),
    ];
    for (text, micro) in cases {
        let input = format!("[a]\nk: {}\n", text);
        let v = parse_one_value(&input);
        assert_eq!(ratio_of(&v), *micro, "parsing {}", text);
    }
}

#[test]
fn leading_digit_falls_back_to_string() {
    let v = parse_one_value("[a]\nk: 00 should fall back to string\n");
    match v {
        Value::String(s) => assert_eq!(s, "00 should fall back to string"),
        other => panic!("expected a string, got {:?}", other),
    }
}

#[test]
fn gcode_block_concatenates_lines() {
    let input = "[a]\nk:\n\tG1 X0\n\t# a comment\n\t\n\tG1 X1\n";
    let v = parse_one_value(input);
    match v {
        Value::Gcode(s) => assert_eq!(s, "G1 X0\nG1 X1\n"),
        other => panic!("expected a G-code block, got {:?}", other),
    }
}

#[test]
fn trailing_comment_is_stripped_from_strings() {
    let v = parse_one_value("[a]\nk: hot end ; the comment\n");
    match v {
        Value::String(s) => assert_eq!(s, "hot end"),
        other => panic!("expected a string, got {:?}", other),
    }
}

#[test]
fn numbers_accept_trailing_comments() {
    let v = parse_one_value("[a]\nk: 42 ; comment\n");
    assert_eq!(number_of(&v), 42_000_000);
}

#[test]
fn sections_carry_prefix_and_suffix() {
    let cfg = Config::parse("# top\n[stepper x]\nsteps: 200\n\n[probe]\nz: 1.5\n").unwrap();
    assert_eq!(cfg.sections.len(), 2);
    assert_eq!(cfg.sections[0].prefix_name, "stepper");
    assert_eq!(cfg.sections[0].suffix_name.as_deref(), Some("x"));
    assert_eq!(cfg.sections[1].prefix_name, "probe");
    assert!(cfg.sections[1].suffix_name.is_none());
    assert_eq!(number_of(&cfg.sections[1].values[0].1), 1_500_000);
}

#[test]
fn config_round_trip_is_structurally_equal() {
    let input = "[stepper x]\nsteps: 200\nratio: 80:10, 2:1\nname: the left motor\nmacro:\n\tG1 X0\n\tG1 X1\n[probe]\nz: 1.5\n";
    let first = Config::parse(input).unwrap();
    let second = Config::parse(&first.serialise()).unwrap();
    assert_eq!(first.sections.len(), second.sections.len());
    for (a, b) in first.sections.iter().zip(second.sections.iter()) {
        assert_eq!(a.prefix_name, b.prefix_name);
        assert_eq!(a.suffix_name, b.suffix_name);
        assert_eq!(a.values.len(), b.values.len());
        for ((ka, va), (kb, vb)) in a.values.iter().zip(b.values.iter()) {
            assert_eq!(ka, kb);
            match (va, vb) {
                (Value::Number(x), Value::Number(y)) => assert_eq!(x, y),
                (Value::Ratio(x), Value::Ratio(y)) => assert_eq!(x, y),
                (Value::String(x), Value::String(y)) => assert_eq!(x, y),
                (Value::Gcode(x), Value::Gcode(y)) => assert_eq!(x, y),
                other => panic!("value kinds differ after the round trip: {:?}", other),
            }
        }
    }
}

#[test]
fn parse_error_reports_position() {
    let err = Config::parse("[broken\n").unwrap_err();
    assert!(err.position <= "[broken\n".len());
    assert!(Config::line_of_position("[broken\n", err.position) >= 1);
    let err2 = Config::parse("no section here\n").unwrap_err();
    assert_eq!(err2.position, 0);
}

#[test]
fn number_scanner_handles_signs_and_exponents() {
    let cases: &[(&str, Option<i64>)] = &[
        ("0", Some(0)),
        ("-0", Some(0)),
        ("1", Some(1_000_000)),
        ("1.0", Some(1_000_000)),
        ("1.23e-02", Some(12_300)),
        ("9_999_999_999", Some(9_999_999_999_000_000)),
        ("+2.5", Some(2_500_000)),
        ("nope", None),
        ("1x", None),
    ];
    for (text, expected) in cases {
        let chars: Vec<char> = text.chars().collect();
        assert_eq!(gantry::numbers::parse_number(&chars), *expected, "parsing {}", text);
    }
}

#[test]
fn empty_input_parses_to_no_sections() {
    let cfg = Config::parse("").unwrap();
    assert!(cfg.sections.is_empty());
    let commented = Config::parse("# only comments\n\n# more\n").unwrap();
    assert!(commented.sections.is_empty());
}

#[test]
fn empty_value_is_an_empty_string() {
    let v = parse_one_value("[a]\nk:\n");
    match v {
        Value::String(s) => assert_eq!(s, ""),
        other => panic!("expected an empty string, got {:?}", other),
    }
}

#[test]
fn oversized_numbers_fall_back_to_strings() {
    // Twenty-three digits exceed the recognised precision.
    let v = parse_one_value("[a]\nk: 99999999999999999999999\n");
    match v {
        Value::String(s) => assert_eq!(s, "99999999999999999999999"),
        other => panic!("expected a string, got {:?}", other),
    }
}

#[test]
fn ratio_with_zero_denominator_falls_back_to_string() {
    let v = parse_one_value("[a]\nk: 5:0\n");
    match v {
        Value::String(s) => assert_eq!(s, "5:0"),
        other => panic!("expected a string, got {:?}", other),
    }
}

#[test]
fn repeated_keys_keep_the_last_value() {
    let cfg = Config::parse("[a]\nk: 1\nk: 2\n").unwrap();
    assert_eq!(cfg.sections[0].values.len(), 1);
    assert_eq!(cfg.sections[0].values[0].0, "k");
    assert_eq!(number_of(&cfg.sections[0].values[0].1), 2_000_000);
}
