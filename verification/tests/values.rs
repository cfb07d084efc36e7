//! JSON values, their texts and their numbers.
use flovo::json::parse_json;
use flovo::string_map::{Duplicate, StringMap};
use flovo::value::{double_less, double_of, Json, JsonNumber};

fn j(text: &str) -> Json {
    parse_json(text).unwrap()
}

#[test]
fn texts_are_read_and_written() {
    let value = j(r#" { "b" : [1, -2, 1.5, true, null], "a" : "x\ny" } "#);
    assert_eq!(value.to_text(), r#"{"a":"x\ny","b":[1,-2,1.5,true,null]}"#);
    assert_eq!(
        j(r#"{"k":[1]}"#).to_pretty_text(),
        "{\n  \"k\": [\n    1\n  ]\n}"
    );
    assert_eq!(
        parse_json("not-json").unwrap_err(),
        "expected ident at line 1 column 2"
    );
}

#[test]
fn values_convert_both_ways() {
    let outside: serde_json::Value =
        serde_json::from_str(r#"{"n":[18446744073709551615,-9223372036854775808,0.25]}"#).unwrap();
    let value = Json::from_outside(outside.clone());
    assert_eq!(value.to_outside(), outside);
    let half = serde_json::Number::from_f64(0.5).unwrap();
    let number = JsonNumber::from_outside(half.clone());
    assert_eq!(number.as_double(), 0.5f64.to_bits());
    assert_eq!(number.to_outside(), half);
}

#[test]
fn integers_become_the_nearest_double() {
    let samples = [
        0u64,
        1,
        2,
        3,
        10,
        1 << 52,
        (1 << 53) - 1,
        1 << 53,
        (1 << 53) + 1,
        (1 << 53) + 2,
        (1 << 53) + 3,
        (1 << 54) + 2,
        (1 << 54) + 6,
        u64::MAX,
        u64::MAX - 1023,
        u64::MAX - 1024,
        u64::MAX - 1025,
        1234567890123456789,
    ];
    for n in samples {
        assert_eq!(double_of(n), (n as f64).to_bits(), "{}", n);
    }
    assert_eq!(JsonNumber::NegInt(-7).as_double(), (-7f64).to_bits());
    assert_eq!(JsonNumber::NegInt(i64::MIN).as_double(), (i64::MIN as f64).to_bits());
}

#[test]
fn doubles_are_ordered() {
    let samples = [-1e300, -1.5, -0.0, 0.0, 1e-300, 1.0, 1.5, 2.0, 1e300];
    for a in samples {
        for b in samples {
            assert_eq!(double_less(f64::to_bits(a), f64::to_bits(b)), a < b, "{} {}", a, b);
        }
    }
}

#[test]
fn equality_follows_the_way_numbers_are_written() {
    assert!(j("1").equals(&j("1")));
    assert!(!j("1").equals(&j("1.0")));
    assert!(j("0.0").equals(&j("-0.0")));
    assert!(!j("-1").equals(&j("1")));
    assert!(j(r#"{"a":[1,{"b":null}],"c":"x"}"#).equals(&j(r#"{"c":"x","a":[1,{"b":null}]}"#)));
    assert!(!j(r#"{"a":1}"#).equals(&j(r#"{"b":1}"#)));
    assert!(!j(r#"{"a":1}"#).equals(&j(r#"{"a":1,"b":1}"#)));
    assert!(!j("[1,2]").equals(&j("[2,1]")));
    assert!(!j("[1,2]").equals(&j("[1]")));
    assert!(!j("null").equals(&j("false")));
    assert!(j("\"a\"").equals(&j("\"a\"").copy()));
}

#[test]
fn parts_of_values_are_found() {
    let value = j(r#"{"s":"text","b":true,"n":3,"neg":-3}"#);
    assert_eq!(value.get("s").unwrap().as_str(), Some("text"));
    assert_eq!(value.get("b").unwrap().as_bool(), Some(true));
    assert_eq!(value.get("n").unwrap().as_u64(), Some(3));
    assert_eq!(value.get("neg").unwrap().as_u64(), None);
    assert_eq!(value.get("neg").unwrap().as_double(), Some((-3f64).to_bits()));
    assert!(value.get("missing").is_none());
    assert!(j("[1]").get("0").is_none());
    assert_eq!(value.as_str(), None);
    assert_eq!(value.as_bool(), None);
    assert_eq!(value.as_double(), None);
}

#[test]
fn maps_keep_their_keys_in_order() {
    let mut map: StringMap<String> = StringMap::new();
    assert!(map.is_empty());
    for key in ["b", "a", "c", "aa", ""] {
        map.insert(key.to_string(), key.to_uppercase());
    }
    map.insert("a".to_string(), "again".to_string());
    assert_eq!(map.keys(), vec!["", "a", "aa", "b", "c"]);
    assert_eq!(map.len(), 5);
    assert_eq!(map.get("a"), Some(&"again".to_string()));
    assert_eq!(map.get("aa"), Some(&"AA".to_string()));
    assert!(map.get("d").is_none());
    if let Some(v) = map.get_mut("b") {
        v.push('!');
    }
    assert!(map.get_mut("zz").is_none());
    assert_eq!(map.key_at(3), "b");
    assert_eq!(map.value_at(3), "B!");
    assert_eq!(map.duplicate().keys(), vec!["", "a", "aa", "b", "c"]);
}

#[test]
fn texts_of_values_are_read_as_the_values() {
    let text = "{\"a\\n\":[null,true,-9223372036854775808,18446744073709551615],\"b\":{\"\":\"\\\"é\"}}";
    let value = parse_json(text).unwrap();
    assert_eq!(value.to_text(), text);
    assert!(parse_json(&value.to_text()).unwrap().equals(&value));
    let nested = |levels: usize| format!("{}{}", "[".repeat(levels), "]".repeat(levels));
    assert_eq!(parse_json(&nested(127)).unwrap().to_text(), nested(127));
    assert!(parse_json(&nested(128)).is_err());
}
