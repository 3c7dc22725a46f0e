use detalib::utils::{QueryBuilder, Record};
use serde_json::Value;

fn parse(text: &str) -> Value {
    serde_json::from_str(text).unwrap()
}

#[test]
fn a_default_record_is_an_empty_object() {
    let record = Record::default();
    assert_eq!(record.key, None);
    assert_eq!(record.value, None);
    assert_eq!(record.expires_in, None);
    assert_eq!(record.expires_at, None);
    assert_eq!(record.json_at(0).to_string(), "{}");
    assert_eq!(record.json(0).unwrap().to_string(), "{}");
}

#[test]
fn a_record_sends_its_fields_and_its_key() {
    let record = Record {
        key: Some(String::from("db8213bc")),
        value: Some(parse(r#"{"name":"John","age":30}"#)),
        expires_in: None,
        expires_at: None,
    };
    let expected = parse(r#"{"name":"John","age":30,"key":"db8213bc"}"#);
    assert_eq!(record.json_at(5), expected);
    assert_eq!(record.json(5), Some(expected));
}

#[test]
fn the_key_of_a_record_goes_before_a_field_named_key() {
    let record = Record {
        key: Some(String::from("outer")),
        value: Some(parse(r#"{"key":"inner"}"#)),
        expires_in: None,
        expires_at: None,
    };
    assert_eq!(record.json_at(0).to_string(), r#"{"key":"outer"}"#);
}

#[test]
fn expires_in_counts_from_now() {
    let record = Record {
        key: None,
        value: Some(parse(r#"{"a":1}"#)),
        expires_in: Some(60),
        expires_at: None,
    };
    assert_eq!(record.json_at(1_700_000_000), parse(r#"{"a":1,"__expires":1700000060}"#));
    assert_eq!(record.json_at(-100), parse(r#"{"a":1,"__expires":-40}"#));
}

#[test]
fn expires_at_is_sent_as_it_is() {
    let record = Record {
        key: None,
        value: None,
        expires_in: None,
        expires_at: Some(1_431_648_000),
    };
    assert_eq!(record.json_at(1_700_000_000).to_string(), r#"{"__expires":1431648000}"#);
    assert_eq!(record.json(i64::MAX).unwrap().to_string(), r#"{"__expires":1431648000}"#);
}

#[test]
fn expires_in_goes_before_expires_at() {
    let record = Record {
        key: None,
        value: None,
        expires_in: Some(10),
        expires_at: Some(5),
    };
    assert_eq!(record.json_at(100).to_string(), r#"{"__expires":110}"#);
}

#[test]
fn json_counts_the_expiry_from_the_time_given() {
    let record = Record {
        key: Some(String::from("k")),
        value: Some(parse(r#"{"a":1}"#)),
        expires_in: Some(3600),
        expires_at: None,
    };
    assert_eq!(
        record.json(1_700_000_000),
        Some(parse(r#"{"a":1,"key":"k","__expires":1700003600}"#))
    );
    assert_eq!(record.json(0), Some(parse(r#"{"a":1,"key":"k","__expires":3600}"#)));
    assert_eq!(record.json(1_700_000_000), Some(record.json_at(1_700_000_000)));
}

#[test]
fn json_gives_nothing_for_a_value_that_is_no_object() {
    let record = Record {
        key: Some(String::from("k")),
        value: Some(parse("[1,2]")),
        expires_in: None,
        expires_at: None,
    };
    assert_eq!(record.json(0), None);
    let record = Record { key: None, value: Some(Value::Null), expires_in: None, expires_at: None };
    assert_eq!(record.json(1_700_000_000), None);
}

#[test]
fn json_gives_nothing_for_an_expiry_that_does_not_fit() {
    let record = Record { key: None, value: None, expires_in: Some(i64::MAX), expires_at: None };
    assert_eq!(record.json(1), None);
    assert_eq!(record.json(1_700_000_000), None);
    let record = Record { key: None, value: None, expires_in: Some(-1), expires_at: None };
    assert_eq!(record.json(i64::MIN), None);
}

#[test]
fn json_takes_an_expiry_that_just_fits() {
    let record = Record { key: None, value: None, expires_in: Some(i64::MAX), expires_at: None };
    assert_eq!(record.json(0).unwrap().to_string(), r#"{"__expires":9223372036854775807}"#);
    let record = Record { key: None, value: None, expires_in: Some(-1), expires_at: None };
    assert_eq!(
        record.json(i64::MIN + 1).unwrap().to_string(),
        r#"{"__expires":-9223372036854775808}"#
    );
}

#[test]
fn copy_keeps_every_field() {
    let record = Record {
        key: Some(String::from("k")),
        value: Some(parse(r#"{"a":[1,{"b":null}]}"#)),
        expires_in: Some(1),
        expires_at: Some(2),
    };
    let copy = record.copy();
    assert_eq!(copy.key, record.key);
    assert_eq!(copy.value, record.value);
    assert_eq!(copy.expires_in, Some(1));
    assert_eq!(copy.expires_at, Some(2));
    let clone = record.clone();
    assert_eq!(clone.json_at(7), record.json_at(7));
}

#[test]
fn a_new_payload_has_a_limit_and_one_empty_group() {
    let q = QueryBuilder::new();
    assert_eq!(q.limit, Some(1000));
    assert_eq!(q.last, None);
    assert_eq!(q.json().to_string(), r#"{"limit":1000,"query":[{}]}"#);
}

#[test]
fn a_payload_names_every_comparator() {
    let mut q = QueryBuilder::new();
    q.equals("a", Value::from(0));
    q.not_equals("a", Value::from(1));
    q.greater_than("a", Value::from(2));
    q.greater_than_or_equal("a", Value::from(3));
    q.less_than("a", Value::from(4));
    q.less_than_or_equal("a", Value::from(5));
    q.prefix("a", "six");
    q.contains("a", "seven");
    q.not_contains("a", "eight");
    q.range("a", Value::from(9), Value::from(10));
    let expected = parse(
        r#"{"limit":1000,"query":[{
            "a":0,"a?ne":1,"a?gt":2,"a?gte":3,"a?lt":4,"a?lte":5,
            "a?pfx":"six","a?contains":"seven","a?not_contains":"eight","a?range":[9,10]}]}"#,
    );
    assert_eq!(q.json(), expected);
}

#[test]
fn a_range_takes_bounds_with_fractions() {
    let mut q = QueryBuilder::new();
    q.range("price", Value::from(0.5), Value::from(99.75));
    assert_eq!(q.json(), parse(r#"{"limit":1000,"query":[{"price?range":[0.5,99.75]}]}"#));
}

#[test]
fn a_payload_keeps_the_last_value_of_a_key() {
    let mut q = QueryBuilder::new();
    q.equals("a", Value::from(1));
    q.equals("a", Value::from(2));
    assert_eq!(q.json(), parse(r#"{"limit":1000,"query":[{"a":2}]}"#));
}

#[test]
fn alternatives_come_before_the_group_in_progress() {
    let mut first = QueryBuilder::new();
    first.equals("a", Value::from(1));
    let mut second = QueryBuilder::new();
    second.equals("b", Value::from(2));
    let mut third = QueryBuilder::new();
    third.equals("c", Value::from(3));
    first.do_or(second);
    first.do_or(third);
    assert_eq!(first.json(), parse(r#"{"limit":1000,"query":[{"b":2},{"c":3},{"a":1}]}"#));
}

#[test]
fn do_or_folds_the_alternatives_of_the_other_payload_too() {
    let mut inner_one = QueryBuilder::new();
    inner_one.equals("x", Value::from(1));
    let mut inner_two = QueryBuilder::new();
    inner_two.equals("y", Value::from(2));
    let mut another = QueryBuilder::new();
    another.equals("b", Value::from(3));
    another.do_or(inner_one);
    another.do_or(inner_two);
    assert_eq!(another.json()["query"].as_array().unwrap().len(), 3);

    let mut first = QueryBuilder::new();
    first.equals("a", Value::from(0));
    let mut own = QueryBuilder::new();
    own.equals("m", Value::from(9));
    first.do_or(own);
    assert_eq!(first.json()["query"].as_array().unwrap().len(), 2);

    first.do_or(another);
    let sent = first.json();
    let groups = sent["query"].as_array().unwrap();
    // one alternative of its own, two of the other, the other's group, its own group
    assert_eq!(groups.len(), 1 + 2 + 2);
    assert_eq!(
        sent,
        parse(r#"{"limit":1000,"query":[{"m":9},{"x":1},{"y":2},{"b":3},{"a":0}]}"#)
    );
}

#[test]
fn do_or_takes_a_payload_without_alternatives() {
    let mut first = QueryBuilder::new();
    first.equals("a", Value::from(0));
    let mut bare = QueryBuilder::default();
    bare.map = Some(serde_json::Map::new());
    bare.equals("b", Value::from(1));
    first.do_or(bare);
    assert_eq!(first.json(), parse(r#"{"limit":1000,"query":[{"b":1},{"a":0}]}"#));
}

#[test]
fn a_payload_sends_limit_and_cursor_where_set() {
    let mut q = QueryBuilder::new();
    q.limit = Some(-5);
    q.last = Some(String::from("cur"));
    assert_eq!(q.json(), parse(r#"{"limit":-5,"last":"cur","query":[{}]}"#));
    q.limit = None;
    q.last = None;
    assert_eq!(q.json().to_string(), r#"{"query":[{}]}"#);
}

#[test]
fn a_payload_without_a_group_in_progress_sends_the_alternatives() {
    let mut q = QueryBuilder::new();
    let mut other = QueryBuilder::new();
    other.equals("b", Value::from(2));
    q.do_or(other);
    q.map = None;
    assert_eq!(q.json(), parse(r#"{"limit":1000,"query":[{"b":2}]}"#));
}

#[test]
fn a_default_payload_has_nothing_set() {
    let q = QueryBuilder::default();
    assert!(q.map.is_none());
    assert_eq!(q.limit, None);
    assert_eq!(q.last, None);
}

#[test]
fn a_payload_copy_sends_the_same() {
    let mut q = QueryBuilder::new();
    q.equals("a", Value::from(1));
    let mut other = QueryBuilder::new();
    other.contains("b", "x");
    q.do_or(other);
    q.last = Some(String::from("cur"));
    let copy = q.clone();
    assert_eq!(copy.limit, Some(1000));
    assert_eq!(copy.json().to_string(), q.json().to_string());
    assert_eq!(
        copy.json().to_string(),
        r#"{"limit":1000,"last":"cur","query":[{"b?contains":"x"},{"a":1}]}"#
    );
}
