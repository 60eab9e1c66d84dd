use pam_cli::json::{Json, encode_json, json_int, json_str};
use pam_cli::jsonparse::parse_json;
use pam_cli::records::{field_bool, field_i64, field_str, field_strs};

#[test]
fn parses_literals() {
    assert!(matches!(parse_json("null"), Some(Json::Null)));
    assert!(matches!(parse_json("true"), Some(Json::Bool(true))));
    assert!(matches!(parse_json(" false "), Some(Json::Bool(false))));
    assert!(parse_json("nul").is_none());
    assert!(parse_json("").is_none());
}

#[test]
fn parses_numbers() {
    match parse_json("123") {
        Some(Json::Num { raw, int_val }) => {
            assert_eq!(raw, "123");
            assert_eq!(int_val, Some(123));
        },
        _ => panic!("expected a number"),
    }
    match parse_json("-42") {
        Some(Json::Num { int_val, .. }) => assert_eq!(int_val, Some(-42)),
        _ => panic!("expected a number"),
    }
    match parse_json("1.5") {
        Some(Json::Num { raw, int_val }) => {
            assert_eq!(raw, "1.5");
            assert_eq!(int_val, None);
        },
        _ => panic!("expected a number"),
    }
    match parse_json("2e3") {
        Some(Json::Num { raw, int_val }) => {
            assert_eq!(raw, "2e3");
            assert_eq!(int_val, None);
        },
        _ => panic!("expected a number"),
    }
    // a huge integer keeps its text but has no 64-bit value
    match parse_json("99999999999999999999999999") {
        Some(Json::Num { int_val, .. }) => assert_eq!(int_val, None),
        _ => panic!("expected a number"),
    }
    // leading zeros are not JSON
    assert!(parse_json("01").is_none());
    assert!(parse_json("-").is_none());
    assert!(parse_json("1.").is_none());
}

#[test]
fn parses_strings_and_escapes() {
    match parse_json("\"hi\"") {
        Some(Json::Str(s)) => assert_eq!(s, "hi"),
        _ => panic!("expected a string"),
    }
    match parse_json("\"a\\n\\t\\\"b\\\\c\\/d\"") {
        Some(Json::Str(s)) => assert_eq!(s, "a\n\t\"b\\c/d"),
        _ => panic!("expected a string"),
    }
    match parse_json("\"\\u0041\\u00e9\"") {
        Some(Json::Str(s)) => assert_eq!(s, "A\u{e9}"),
        _ => panic!("expected a string"),
    }
    // a surrogate pair denotes one character beyond the basic plane
    match parse_json("\"\\ud83d\\ude00\"") {
        Some(Json::Str(s)) => assert_eq!(s, "\u{1f600}"),
        _ => panic!("expected a string"),
    }
    // a lone surrogate is not a string
    assert!(parse_json("\"\\ud83d\"").is_none());
    // a raw control character is not allowed inside a string
    assert!(parse_json("\"a\nb\"").is_none());
    // an unterminated string fails
    assert!(parse_json("\"abc").is_none());
}

#[test]
fn parses_arrays_and_objects() {
    match parse_json("[]") {
        Some(Json::Arr(items)) => assert_eq!(items.len(), 0),
        _ => panic!("expected an array"),
    }
    match parse_json(" [ 1 , 2 , 3 ] ") {
        Some(Json::Arr(items)) => assert_eq!(items.len(), 3),
        _ => panic!("expected an array"),
    }
    let obj = parse_json("{\"a\": 1, \"b\": \"x\", \"c\": true, \"d\": [\"p\",\"q\"]}").unwrap();
    assert_eq!(field_i64(&obj, "a"), Some(1));
    assert_eq!(field_str(&obj, "b").as_deref(), Some("x"));
    assert_eq!(field_bool(&obj, "c"), Some(true));
    let d = field_strs(&obj, "d").unwrap();
    assert_eq!(d, vec!["p".to_owned(), "q".to_owned()]);
    // trailing content after a value fails the whole parse
    assert!(parse_json("{} x").is_none());
    assert!(parse_json("[1,]").is_none());
    assert!(parse_json("{\"a\" 1}").is_none());
}

#[test]
fn later_binding_of_a_key_wins() {
    let obj = parse_json("{\"a\": 1, \"a\": 2}").unwrap();
    assert_eq!(field_i64(&obj, "a"), Some(2));
}

#[test]
fn encodes_values_exactly() {
    assert_eq!(encode_json(&Json::Null), "null");
    assert_eq!(encode_json(&Json::Bool(true)), "true");
    assert_eq!(encode_json(&json_int(-7)), "-7");
    assert_eq!(encode_json(&json_str("hi")), "\"hi\"");
    assert_eq!(encode_json(&json_str("a\"b\\c\nd")), "\"a\\\"b\\\\c\\nd\"");
    let arr = Json::Arr(vec![json_int(1), json_str("x")]);
    assert_eq!(encode_json(&arr), "[1,\"x\"]");
    let obj = Json::Obj(vec![
        ("k".to_owned(), json_int(3)),
        ("m".to_owned(), Json::Arr(Vec::new())),
    ]);
    assert_eq!(encode_json(&obj), "{\"k\":3,\"m\":[]}");
}

#[test]
fn encoder_output_reparses_to_the_same_value() {
    let obj = Json::Obj(vec![
        ("text".to_owned(), json_str("line1\nline2\t\"quoted\"")),
        ("n".to_owned(), json_int(12345)),
        (
            "inner".to_owned(),
            Json::Arr(vec![Json::Null, Json::Bool(false), json_str("\u{1f600}")]),
        ),
    ]);
    let text = encode_json(&obj);
    let back = parse_json(&text).unwrap();
    assert_eq!(field_str(&back, "text").as_deref(), Some("line1\nline2\t\"quoted\""));
    assert_eq!(field_i64(&back, "n"), Some(12345));
    // an outside JSON parser agrees the text is well-formed and the content
    // matches
    let v: serde_json::Value = serde_json::from_str(&text).unwrap();
    assert_eq!(v["text"].as_str(), Some("line1\nline2\t\"quoted\""));
    assert_eq!(v["n"].as_i64(), Some(12345));
    assert_eq!(v["inner"][2].as_str(), Some("\u{1f600}"));
}

#[test]
fn control_characters_escape_as_hex() {
    assert_eq!(encode_json(&json_str("\u{1}")), "\"\\u0001\"");
    let v: serde_json::Value = serde_json::from_str(&encode_json(&json_str("\u{1}"))).unwrap();
    assert_eq!(v.as_str(), Some("\u{1}"));
}

// A small deterministic generator: enough variety to exercise every encoder
// and parser branch together.
struct Gen {
    state: u64,
}

impl Gen {
    fn next(&mut self, bound: u64) -> u64 {
        self.state = self
            .state
            .wrapping_mul(6364136223846793005)
            .wrapping_add(1442695040888963407);
        (self.state >> 33) % bound
    }

    fn string(&mut self) -> String {
        let mut s = String::new();
        let n = self.next(8);
        for _ in 0..n {
            match self.next(7) {
                0 => s.push('"'),
                1 => s.push('\\'),
                2 => s.push('\n'),
                3 => s.push('\u{3}'),
                4 => s.push('\u{1f600}'),
                5 => s.push('é'),
                _ => s.push('a'),
            }
        }
        s
    }

    fn value(&mut self, depth: u64) -> Json {
        let pick = if depth == 0 { self.next(4) } else { self.next(6) };
        match pick {
            0 => Json::Null,
            1 => Json::Bool(self.next(2) == 0),
            2 => json_int(self.next(1 << 40) as i64 - (1 << 39)),
            3 => Json::Str(self.string()),
            4 => {
                let n = self.next(4);
                let mut items = Vec::new();
                for _ in 0..n {
                    items.push(self.value(depth - 1));
                }
                Json::Arr(items)
            }
            _ => {
                let n = self.next(4);
                let mut fields = Vec::new();
                for i in 0..n {
                    fields.push((format!("k{}", i), self.value(depth - 1)));
                }
                Json::Obj(fields)
            }
        }
    }
}

fn same_value(a: &Json, b: &Json) -> bool {
    match (a, b) {
        (Json::Null, Json::Null) => true,
        (Json::Bool(x), Json::Bool(y)) => x == y,
        (
            Json::Num { raw: xr, int_val: xi },
            Json::Num { raw: yr, int_val: yi },
        ) => xr == yr && xi == yi,
        (Json::Str(x), Json::Str(y)) => x == y,
        (Json::Arr(x), Json::Arr(y)) => {
            x.len() == y.len() && x.iter().zip(y.iter()).all(|(p, q)| same_value(p, q))
        }
        (Json::Obj(x), Json::Obj(y)) => {
            x.len() == y.len()
                && x.iter()
                    .zip(y.iter())
                    .all(|(p, q)| p.0 == q.0 && same_value(&p.1, &q.1))
        }
        _ => false,
    }
}

#[test]
fn generated_values_round_trip_through_the_codec() {
    let mut g = Gen { state: 7 };
    for _ in 0..200 {
        let v = g.value(3);
        let text = encode_json(&v);
        // the encoder's output is well-formed JSON to an outside parser too
        let outside: Result<serde_json::Value, _> = serde_json::from_str(&text);
        assert!(outside.is_ok(), "outside parser rejected: {}", text);
        let back = parse_json(&text).unwrap_or_else(|| panic!("reparse failed: {}", text));
        assert!(same_value(&v, &back), "round trip changed: {}", text);
    }
}
