use detalib::errors::DetaError;
use detalib::request::{Body, Method};
use detalib::Deta;
use serde_json::Value;

fn parse(text: &str) -> Value {
    serde_json::from_str(text).unwrap()
}

fn body_text(body: &Body) -> String {
    match body {
        Body::Json(v) => v.to_string(),
        Body::Empty => String::from("<empty>"),
        Body::Bytes(_) => String::from("<bytes>"),
    }
}

#[test]
fn url_joins_project_name_and_path() {
    let base = Deta::from("abc_secret").base("hello");
    assert_eq!(base.url("/query"), "https://database.deta.sh/v1/abc/hello/query");
    assert_eq!(base.url(""), "https://database.deta.sh/v1/abc/hello");
}

#[test]
fn request_with_a_body_is_json() {
    let base = Deta::from("abc_secret").base("hello");
    let request = base.request(Method::Post, "/items", Some(parse(r#"{"a":1}"#)));
    assert_eq!(request.method, Method::Post);
    assert_eq!(request.url, "https://database.deta.sh/v1/abc/hello/items");
    assert_eq!(request.api_key, "abc_secret");
    assert_eq!(request.content_type.as_deref(), Some("application/json"));
    assert_eq!(body_text(&request.body), r#"{"a":1}"#);
}

#[test]
fn request_without_a_body_is_empty() {
    let base = Deta::from("abc_secret").base("hello");
    let request = base.request(Method::Delete, "/items/k", None);
    assert_eq!(request.method, Method::Delete);
    assert_eq!(request.content_type, None);
    assert!(matches!(request.body, Body::Empty));
}

#[test]
fn put_wraps_the_records() {
    let base = Deta::from("abc_secret").base("hello");
    let records = vec![parse(r#"{"key":"a"}"#), parse(r#"{"key":"b"}"#)];
    let request = base.put(records).unwrap();
    assert_eq!(request.method, Method::Put);
    assert_eq!(request.url, "https://database.deta.sh/v1/abc/hello/items");
    assert_eq!(body_text(&request.body), r#"{"items":[{"key":"a"},{"key":"b"}]}"#);
}

#[test]
fn put_takes_twenty_five_records() {
    let base = Deta::from("abc_secret").base("hello");
    let mut records = Vec::new();
    for i in 0..25 {
        records.push(Value::from(i));
    }
    let request = base.put(records).unwrap();
    match &request.body {
        Body::Json(v) => assert_eq!(v["items"].as_array().unwrap().len(), 25),
        _ => panic!("a put carries JSON"),
    }
}

#[test]
fn put_refuses_twenty_six_records() {
    let base = Deta::from("abc_secret").base("hello");
    let mut records = Vec::new();
    for i in 0..26 {
        records.push(Value::from(i));
    }
    let refused = base.put(records).unwrap_err();
    assert_eq!(
        refused,
        DetaError::PayloadError { msg: String::from("maximum 25 records can be put at a time") }
    );
}

#[test]
fn put_of_no_records_is_an_empty_list() {
    let base = Deta::from("abc_secret").base("hello");
    let request = base.put(Vec::new()).unwrap();
    assert_eq!(body_text(&request.body), r#"{"items":[]}"#);
}

#[test]
fn insert_wraps_the_record() {
    let base = Deta::from("abc_secret").base("hello");
    let request = base.insert(parse(r#"{"key":"a","n":1}"#));
    assert_eq!(request.method, Method::Post);
    assert_eq!(request.url, "https://database.deta.sh/v1/abc/hello/items");
    assert_eq!(body_text(&request.body), r#"{"item":{"key":"a","n":1}}"#);
}

#[test]
fn get_and_delete_name_the_record() {
    let base = Deta::from("abc_secret").base("hello");
    let get = base.get("db8213bc");
    assert_eq!(get.method, Method::Get);
    assert_eq!(get.url, "https://database.deta.sh/v1/abc/hello/items/db8213bc");
    let delete = base.delete("db8213bc");
    assert_eq!(delete.method, Method::Delete);
    assert_eq!(delete.url, "https://database.deta.sh/v1/abc/hello/items/db8213bc");
    assert!(matches!(delete.body, Body::Empty));
}

#[test]
fn method_names() {
    assert_eq!(Method::Get.as_str(), "GET");
    assert_eq!(Method::Put.as_str(), "PUT");
    assert_eq!(Method::Post.as_str(), "POST");
    assert_eq!(Method::Delete.as_str(), "DELETE");
    assert_eq!(Method::Patch.as_str(), "PATCH");
}
