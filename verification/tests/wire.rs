//! What is read from JSON text.

use riff::config::{load_riff_json_defaults, Env};
use riff::history::read_jsonl_values;
use riff::http::response_json;
use riff::json::{Json, Number};
use riff::wire::{read_json, read_json_bytes};

fn number(text: &str) -> Number {
    match read_json(text).unwrap() {
        Json::Number(n) => n,
        other => panic!("{other:?}"),
    }
}

#[test]
fn numbers_are_told_apart() {
    assert!(matches!(number("0"), Number::Unsigned(0)));
    assert!(matches!(number("18446744073709551615"), Number::Unsigned(u64::MAX)));
    assert!(matches!(number("-1"), Number::Negative(-1)));
    assert!(matches!(number("-9223372036854775808"), Number::Negative(i64::MIN)));
    for (text, value, shown) in
        [("1.5", 1.5f64, "1.5"), ("2.0", 2.0, "2.0"), ("-0.25", -0.25, "-0.25"), ("3e0", 3.0, "3.0")]
    {
        match number(text) {
            Number::Float(m, t) => {
                assert_eq!(m.bits, value.to_bits());
                assert_eq!(t, shown);
            }
            other => panic!("{other:?}"),
        }
    }
    match number("18446744073709551616") {
        Number::Float(m, _) => assert_eq!(m.bits, 18446744073709551616f64.to_bits()),
        other => panic!("{other:?}"),
    }
}

#[test]
fn values_are_read_to_their_depth() {
    let value = read_json(r#"{"b":[true,null,{"x":"é\n"}],"a":-2,"a":3}"#).unwrap();
    assert_eq!(value.get_u64("a"), Some(3));
    match value {
        Json::Object(fields) => {
            assert_eq!(fields.iter().map(|(k, _)| k.as_str()).collect::<Vec<_>>(), ["a", "b"]);
            match &fields[1].1 {
                Json::List(items) => {
                    assert!(matches!(items[0], Json::Bool(true)));
                    assert!(matches!(items[1], Json::Null));
                    assert_eq!(items[2].get_text("x").unwrap(), "é\n");
                }
                other => panic!("{other:?}"),
            }
        }
        other => panic!("{other:?}"),
    }
}

#[test]
fn what_is_no_json_is_refused() {
    assert_eq!(read_json("").unwrap_err(), "EOF while parsing a value at line 1 column 0");
    assert_eq!(read_json("1 2").unwrap_err(), "trailing characters at line 1 column 3");
    assert!(read_json_bytes(b"\"\xff\"").unwrap_err().starts_with("invalid unicode code point"));
    assert!(matches!(read_json_bytes(b" null ").unwrap(), Json::Null));
}

#[test]
fn logs_are_read_line_by_line() {
    let log = "{\"n\":1}\r\n\n{\"n\":2\n[3]\n{\"n\":4}";
    let values = read_jsonl_values(log);
    assert_eq!(values.len(), 3);
    assert_eq!(values[0].get_u64("n"), Some(1));
    assert!(matches!(values[1], Json::List(_)));
    assert_eq!(values[2].get_u64("n"), Some(4));
    let grown = read_jsonl_values(&format!("{log}\n7"));
    assert_eq!(grown.len(), 4);
    assert!(matches!(grown[3], Json::Number(Number::Unsigned(7))));
}

#[test]
fn answers_carry_a_value() {
    let answer = response_json(b"HTTP/1.1 200 OK\r\nX: y\r\n\r\n{\"ok\":true}").unwrap();
    assert_eq!(answer.get_bool("ok"), Some(true));
    assert!(response_json(b"HTTP/1.1 200 OK\r\n\r\n").is_none());
    assert!(response_json(b"{}").is_none());
}

#[test]
fn settings_that_are_no_json_change_nothing() {
    let mut env = Env { vars: Vec::new() };
    load_riff_json_defaults(&mut env, &vec![], "{\"RIFF_BEEP\":");
    assert!(env.vars.is_empty());
    load_riff_json_defaults(&mut env, &vec![], "{\"RIFF_BEEP\":false,\"OTHER\":1}");
    assert_eq!(env.vars, vec![("RIFF_BEEP".to_string(), "0".to_string())]);
}
