use blogr_themes::strmap::StrMap;
use blogr_themes::value::ConfigValue;

#[test]
fn type_str_names_each_kind() {
    assert_eq!(ConfigValue::String("a".to_string()).type_str(), "string");
    assert_eq!(ConfigValue::Integer(-3).type_str(), "integer");
    assert_eq!(ConfigValue::Float(1.5f64.to_bits()).type_str(), "float");
    assert_eq!(ConfigValue::Boolean(true).type_str(), "boolean");
    assert_eq!(ConfigValue::Datetime("1979-05-27T07:32:00Z".to_string()).type_str(), "datetime");
    assert_eq!(ConfigValue::Array(vec![ConfigValue::Integer(1)]).type_str(), "array");
    assert_eq!(
        ConfigValue::Table(vec![("k".to_string(), ConfigValue::Boolean(false))]).type_str(),
        "table"
    );
}

#[test]
fn float_bits_round_trip() {
    let v = ConfigValue::Float(14.25f64.to_bits());
    match v {
        ConfigValue::Float(bits) => assert_eq!(f64::from_bits(bits), 14.25),
        _ => panic!("not a float"),
    }
}

#[test]
fn new_map_is_empty() {
    let m: StrMap<u32> = StrMap::new();
    assert_eq!(m.len(), 0);
    assert!(m.is_empty());
    assert_eq!(m.get("a"), None);
    assert!(!m.contains_key("a"));
    assert_eq!(m.position("a"), None);
}

#[test]
fn insert_adds_behind_and_overwrites_in_place() {
    let mut m: StrMap<u32> = StrMap::new();
    m.insert("a".to_string(), 1);
    m.insert("b".to_string(), 2);
    m.insert("a".to_string(), 3);
    assert_eq!(m.len(), 2);
    assert!(!m.is_empty());
    assert_eq!(m.get("a"), Some(&3));
    assert_eq!(m.get("b"), Some(&2));
    assert_eq!(m.key_at(0), "a");
    assert_eq!(m.key_at(1), "b");
    assert_eq!(*m.value_at(0), 3);
    assert_eq!(*m.value_at(1), 2);
    assert_eq!(m.position("b"), Some(1));
}

#[test]
fn insert_if_absent_never_replaces() {
    let mut m: StrMap<u32> = StrMap::new();
    assert!(m.insert_if_absent("a".to_string(), 1));
    assert!(!m.insert_if_absent("a".to_string(), 2));
    assert!(m.insert_if_absent("A".to_string(), 3));
    assert_eq!(m.get("a"), Some(&1));
    assert_eq!(m.get("A"), Some(&3));
    assert_eq!(m.len(), 2);
}

#[test]
fn pop_takes_the_last_entry() {
    let mut m: StrMap<u32> = StrMap::new();
    m.insert("a".to_string(), 1);
    m.insert("b".to_string(), 2);
    assert_eq!(m.pop(), Some(("b".to_string(), 2)));
    assert!(!m.contains_key("b"));
    assert_eq!(m.pop(), Some(("a".to_string(), 1)));
    assert_eq!(m.pop(), None);
    assert!(m.is_empty());
}
