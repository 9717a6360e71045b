use flytable::inference::request::{digest_bytes, digest_value, hex_of};
use flytable::json::{Json, JsonFloat};

/// A value of the JSON library, as one of this library.
fn from_value(v: &serde_json::Value) -> Json {
    match v {
        serde_json::Value::Null => Json::Null,
        serde_json::Value::Bool(b) => Json::Bool(*b),
        serde_json::Value::Number(n) => {
            if let Some(u) = n.as_u64() {
                Json::UInt(u)
            } else if let Some(i) = n.as_i64() {
                Json::Int(i)
            } else {
                Json::Float(JsonFloat { bits: n.as_f64().unwrap().to_bits(), text: n.to_string() })
            }
        }
        serde_json::Value::String(s) => Json::text(s),
        serde_json::Value::Array(items) => Json::array(items.iter().map(from_value).collect()),
        serde_json::Value::Object(m) => {
            let mut out = Json::object();
            for (k, v) in m {
                out = out.with(k, from_value(v));
            }
            out
        }
    }
}

fn parse(text: &str) -> Json {
    from_value(&serde_json::from_str(text).unwrap())
}

#[test]
fn written_values_are_those_of_the_json_library() {
    for text in [
        "null",
        "true",
        "[]",
        "{}",
        "[1,-2,3.5,1e30,0.1,-0.0]",
        r#"{"b":[{"z":1,"a":null}],"a":"x\"y\\z\n\u0001€","A":""}"#,
        r#"{"nested":{"deep":[[],[[]],{"k":{}}]}}"#,
    ] {
        let value: serde_json::Value = serde_json::from_str(text).unwrap();
        assert_eq!(from_value(&value).write(), value.to_string());
    }
}

#[test]
fn members_are_ordered_and_read_back() {
    let o = Json::object().with("b", Json::UInt(1)).with("a", Json::Bool(true)).with("c", Json::text("x")).with(
        "b",
        Json::Int(-2),
    );
    assert_eq!(o.write(), r#"{"a":true,"b":-2,"c":"x"}"#);
    assert_eq!(o.get("b"), Some(&Json::Int(-2)));
    assert_eq!(o.get("d"), None);
    assert_eq!(o.text_at("c"), Some("x"));
    assert_eq!(o.bool_at("a"), Some(true));
    assert_eq!(o.u64_at("b"), None);
    assert!(o.has_text("c", "x") && !o.has_text("c", "y"));
    assert_eq!(o.copy(), o);
    assert!(o.same_as(&o.copy()));
    let less = o.without("a");
    assert_eq!(less.write(), r#"{"b":-2,"c":"x"}"#);
    assert_eq!(Json::UInt(1).get("a"), None);
}

#[test]
fn integers_become_doubles() {
    let f = Json::UInt(1).as_float().unwrap();
    assert_eq!((f.bits, f.text.as_str()), (1f64.to_bits(), "1.0"));
    let f = Json::Int(-3).as_float().unwrap();
    assert_eq!((f.bits, f.text.as_str()), ((-3f64).to_bits(), "-3.0"));
    assert!(Json::text("1").as_float().is_none());
    assert_eq!(parse("2.5").as_float().unwrap().text, "2.5");
}

#[test]
fn doubles_are_ordered_by_their_rank() {
    let values = [-1e300, -2.0, -0.5, 0.0, 1e-300, 0.5, 1.0, 1e300];
    let ranks: Vec<i64> = values.iter().map(|v: &f64| JsonFloat { bits: v.to_bits(), text: String::new() }.rank()).collect();
    for pair in ranks.windows(2) {
        assert!(pair[0] < pair[1]);
    }
    assert_eq!(JsonFloat { bits: (-0.0f64).to_bits(), text: String::new() }.rank(), 0);
    assert!(JsonFloat { bits: 1f64.to_bits(), text: String::new() }.finite());
    assert!(!JsonFloat { bits: f64::INFINITY.to_bits(), text: String::new() }.finite());
    assert!(!JsonFloat { bits: f64::NAN.to_bits(), text: String::new() }.finite());
}

#[test]
fn digests_are_sha256() {
    assert_eq!(
        digest_bytes(b"abc"),
        "sha256:ba7816bf8f01cfea414140de5dae2223b00361a396177a9cb410ff61f20015ad"
    );
    assert_eq!(hex_of(&[0, 15, 255]), "000fff");
    let a = Json::object().with("x", Json::UInt(1)).with("y", Json::UInt(2));
    let b = Json::object().with("y", Json::UInt(2)).with("x", Json::UInt(1));
    assert_eq!(digest_value(&a), digest_value(&b));
    assert_eq!(digest_value(&a), digest_bytes(br#"{"x":1,"y":2}"#));
}

#[test]
fn digests_do_not_depend_on_the_order_of_members() {
    let ordered = Json::object().with("a", Json::UInt(1)).with("b", Json::object().with("c", Json::Null).with("d", Json::Null));
    let members = |v: Vec<(&str, Json)>| Json::Object(v.into_iter().map(|(k, j)| (k.to_string(), j)).collect());
    let mixed = members(vec![("b", members(vec![("d", Json::Null), ("c", Json::Null)])), ("a", Json::UInt(1))]);
    assert_ne!(mixed.write(), ordered.write());
    assert_eq!(mixed.canonical(), ordered);
    assert_eq!(digest_value(&mixed), digest_value(&ordered));
    assert_eq!(digest_value(&mixed), digest_bytes(br#"{"a":1,"b":{"c":null,"d":null}}"#));
}

#[test]
fn white_space_is_trimmed() {
    for n in 0..=char::MAX as u32 {
        if let Some(c) = char::from_u32(n) {
            let white = matches!(n, 0x9..=0xd | 0x20 | 0x85 | 0xa0 | 0x1680 | 0x2000..=0x200a | 0x2028 | 0x2029 | 0x202f | 0x205f | 0x3000);
            assert_eq!(c.is_whitespace(), white);
        }
    }
    assert_eq!(flytable::text::trim("\u{3000} a b\t"), "a b");
}
