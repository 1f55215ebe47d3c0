use openapi_status::status_code::{DecodeError, Kind, Node, Number};
use openapi_status::StatusCode;
use std::collections::BTreeMap;
use std::hash::{Hash, Hasher};

fn node_of(value: &serde_yaml::Value) -> Node {
    match value {
        serde_yaml::Value::Number(n) => {
            if let Some(u) = n.as_u64() {
                Node::Unsigned(u)
            } else if let Some(i) = n.as_i64() {
                Node::Signed(i)
            } else {
                Node::Other(Kind::Float)
            }
        }
        serde_yaml::Value::String(s) => Node::Text(s.clone()),
        serde_yaml::Value::Bool(_) => Node::Other(Kind::Bool),
        serde_yaml::Value::Null => Node::Other(Kind::Null),
        serde_yaml::Value::Sequence(_) => Node::Other(Kind::Sequence),
        serde_yaml::Value::Mapping(_) => Node::Other(Kind::Mapping),
        serde_yaml::Value::Tagged(t) => node_of(&t.value),
    }
}

fn from_str(document: &str) -> Result<StatusCode, DecodeError> {
    let value: serde_yaml::Value = serde_yaml::from_str(document).unwrap();
    StatusCode::decode(&node_of(&value))
}

fn text(s: &str) -> Result<StatusCode, DecodeError> {
    StatusCode::decode(&Node::Text(s.to_string()))
}

fn hash_of(k: &StatusCode) -> u64 {
    let mut h = std::collections::hash_map::DefaultHasher::new();
    k.hash(&mut h);
    h.finish()
}

#[test]
fn deserialize_strings_and_numbers() {
    assert_eq!(StatusCode::Code(200), from_str("200").unwrap(),);
    assert_eq!(StatusCode::Code(200), from_str("'200'").unwrap(),);
}

#[test]
fn deserialize_invalid_code() {
    assert_eq!(
        from_str("'6666'"),
        Err(DecodeError::WrongLength("6666".to_string()))
    );
}

#[test]
fn deserialize_ranges() {
    assert_eq!(StatusCode::Range(2), from_str("2XX").unwrap(),);
    assert_eq!(StatusCode::Range(4), from_str("'4xx'").unwrap(),);
}

#[test]
fn deserialize_invalid_range() {
    assert_eq!(
        from_str("2XY"),
        Err(DecodeError::InvalidFormat("2XY".to_string()))
    );
}

#[test]
fn round_trip_every_key() {
    for n in 100u16..=999 {
        let k = StatusCode::Code(n);
        assert_eq!(text(&k.to_string()), Ok(k));
    }
    for d in 0u16..=9 {
        let k = StatusCode::Range(d);
        assert_eq!(text(&k.to_string()), Ok(k));
    }
}

#[test]
fn canonical_form_ignores_surface() {
    assert_eq!(StatusCode::decode(&Node::Unsigned(200)).unwrap().to_string(), "200");
    assert_eq!(StatusCode::decode(&Node::Signed(200)).unwrap().to_string(), "200");
    assert_eq!(text("200").unwrap().to_string(), "200");
    assert_eq!(text("4xx").unwrap().to_string(), "4XX");
    assert_eq!(text("4XX").unwrap().to_string(), "4XX");
    assert_eq!(text("4xX").unwrap().to_string(), "4XX");
    assert_eq!(StatusCode::Code(404).to_string(), "404");
    assert_eq!(StatusCode::Range(5).to_string(), "5XX");
}

#[test]
fn integer_bounds() {
    assert_eq!(StatusCode::from_signed(100), Ok(StatusCode::Code(100)));
    assert_eq!(StatusCode::from_signed(999), Ok(StatusCode::Code(999)));
    assert_eq!(StatusCode::from_unsigned(100), Ok(StatusCode::Code(100)));
    assert_eq!(StatusCode::from_unsigned(999), Ok(StatusCode::Code(999)));
    assert_eq!(
        StatusCode::from_signed(99),
        Err(DecodeError::OutOfRange(Number::Signed(99)))
    );
    assert_eq!(
        StatusCode::from_signed(1000),
        Err(DecodeError::OutOfRange(Number::Signed(1000)))
    );
    assert_eq!(
        StatusCode::from_unsigned(99),
        Err(DecodeError::OutOfRange(Number::Unsigned(99)))
    );
    assert_eq!(
        StatusCode::from_unsigned(1000),
        Err(DecodeError::OutOfRange(Number::Unsigned(1000)))
    );
    assert_eq!(
        StatusCode::from_signed(-200),
        Err(DecodeError::OutOfRange(Number::Signed(-200)))
    );
    assert_eq!(
        StatusCode::from_unsigned(u64::MAX),
        Err(DecodeError::OutOfRange(Number::Unsigned(u64::MAX)))
    );
    assert_eq!(from_str("50"), Err(DecodeError::OutOfRange(Number::Unsigned(50))));
    assert_eq!(from_str("1200"), Err(DecodeError::OutOfRange(Number::Unsigned(1200))));
    assert_eq!(from_str("-5"), Err(DecodeError::OutOfRange(Number::Signed(-5))));
}

#[test]
fn quoted_integers_outside_range() {
    assert_eq!(text("050"), Err(DecodeError::OutOfRange(Number::Signed(50))));
    assert_eq!(text("000"), Err(DecodeError::OutOfRange(Number::Signed(0))));
    assert_eq!(text("-12"), Err(DecodeError::OutOfRange(Number::Signed(-12))));
    assert_eq!(text("+42"), Err(DecodeError::OutOfRange(Number::Signed(42))));
    assert_eq!(text("100"), Ok(StatusCode::Code(100)));
    assert_eq!(text("999"), Ok(StatusCode::Code(999)));
}

#[test]
fn length_is_counted_in_characters() {
    for s in ["", "2", "20", "2X", "ab", "2000", "2XXX", "abcd", "20000"] {
        assert_eq!(text(s), Err(DecodeError::WrongLength(s.to_string())));
    }
    assert_eq!(text("éé"), Err(DecodeError::WrongLength("éé".to_string())));
    assert_eq!(text("ééé"), Err(DecodeError::InvalidFormat("ééé".to_string())));
    assert_eq!(text("2ÿX"), Err(DecodeError::InvalidFormat("2ÿX".to_string())));
}

#[test]
fn class_patterns() {
    for d in 0u16..=9 {
        let upper = format!("{}XX", d);
        let lower = format!("{}xx", d);
        assert_eq!(text(&upper), Ok(StatusCode::Range(d)));
        assert_eq!(text(&lower), Ok(StatusCode::Range(d)));
    }
    for s in ["XXX", "2X0", "20X", "2XY", "X2X", "+XX", "2 X", "x2x"] {
        assert_eq!(text(s), Err(DecodeError::InvalidFormat(s.to_string())));
    }
}

#[test]
fn other_node_types() {
    for k in [Kind::Bool, Kind::Null, Kind::Float, Kind::Sequence, Kind::Mapping] {
        assert_eq!(StatusCode::decode(&Node::Other(k)), Err(DecodeError::WrongType(k)));
    }
    assert_eq!(from_str("true"), Err(DecodeError::WrongType(Kind::Bool)));
    assert_eq!(from_str("~"), Err(DecodeError::WrongType(Kind::Null)));
    assert_eq!(from_str("200.5"), Err(DecodeError::WrongType(Kind::Float)));
    assert_eq!(from_str("[200]"), Err(DecodeError::WrongType(Kind::Sequence)));
    assert_eq!(from_str("{a: 1}"), Err(DecodeError::WrongType(Kind::Mapping)));
}

#[test]
fn order_and_hash_agree_with_equality() {
    let a = StatusCode::Code(200);
    let b = text("200").unwrap();
    assert_eq!(a, b);
    assert_eq!(hash_of(&a), hash_of(&b));
    assert_eq!(a.partial_cmp(&b), Some(std::cmp::Ordering::Equal));
    assert_eq!(a.cmp(&b), std::cmp::Ordering::Equal);
    assert_ne!(StatusCode::Code(200), StatusCode::Range(2));
    let keys = [
        StatusCode::Range(9),
        StatusCode::Code(999),
        StatusCode::Range(0),
        StatusCode::Code(100),
        StatusCode::Code(404),
        StatusCode::Range(4),
    ];
    for x in keys.iter() {
        assert!(!(x < x));
        for y in keys.iter() {
            assert_eq!(x.partial_cmp(y), Some(x.cmp(y)));
            if x != y {
                assert!((x < y) != (y < x));
            }
            for z in keys.iter() {
                if x < y && y < z {
                    assert!(x < z);
                }
            }
        }
    }
    assert!(StatusCode::Code(999) < StatusCode::Range(0));
    assert!(StatusCode::Range(2) < StatusCode::Range(4));
}

#[test]
fn response_keys_of_a_document() {
    let doc: serde_yaml::Value =
        serde_yaml::from_str("{\"200\": {description: ok}, \"4XX\": {description: bad}}").unwrap();
    let mapping = doc.as_mapping().unwrap();
    let mut responses = BTreeMap::new();
    for (key, value) in mapping.iter() {
        responses.insert(StatusCode::decode(&node_of(key)).unwrap(), value.clone());
    }
    let keys: Vec<StatusCode> = responses.keys().cloned().collect();
    assert_eq!(keys, vec![StatusCode::Code(200), StatusCode::Range(4)]);
    let written: Vec<String> = responses.keys().map(|k| k.to_string()).collect();
    assert_eq!(written, vec!["200".to_string(), "4XX".to_string()]);
}

#[test]
fn well_formedness() {
    assert!(StatusCode::Code(100).is_well_formed());
    assert!(StatusCode::Code(999).is_well_formed());
    assert!(!StatusCode::Code(99).is_well_formed());
    assert!(!StatusCode::Code(1000).is_well_formed());
    assert!(StatusCode::Range(0).is_well_formed());
    assert!(StatusCode::Range(9).is_well_formed());
    assert!(!StatusCode::Range(10).is_well_formed());
}
