use detalib::deta;
use detalib::request::{Body, Method};
use detalib::{validate, Deta};

#[test]
fn validate_accepts_one_underscore() {
    assert_eq!(validate("abc_secret"), Some("abc"));
}

#[test]
fn validate_rejects_a_key_without_underscore() {
    assert_eq!(validate("abcsecret"), None);
    assert_eq!(validate(""), None);
}

#[test]
fn validate_rejects_a_key_with_two_underscores() {
    assert_eq!(validate("abc_def_ghi"), None);
    assert_eq!(validate("__"), None);
}

#[test]
fn validate_allows_empty_parts() {
    assert_eq!(validate("_secret"), Some(""));
    assert_eq!(validate("abc_"), Some("abc"));
    assert_eq!(validate("_"), Some(""));
}

#[test]
fn validate_counts_characters_not_bytes() {
    assert_eq!(validate("pröjekt_schlüssel"), Some("pröjekt"));
}

#[test]
fn from_splits_the_key() {
    let deta = Deta::from("a0abcyxz_aSecretValue");
    assert_eq!(deta.project_id(), "a0abcyxz");
    assert_eq!(deta.project_key(), "a0abcyxz_aSecretValue");
}

#[test]
fn new_takes_what_stands_before_the_first_underscore() {
    let lenient = deta::new("abc_def_ghi");
    assert_eq!(lenient.project_id(), "abc");
    assert_eq!(lenient.project_key(), "abc_def_ghi");
    let whole = deta::new("nounderscore");
    assert_eq!(whole.project_id(), "nounderscore");
    assert_eq!(whole.project_key(), "nounderscore");
    let empty = deta::new("");
    assert_eq!(empty.project_id(), "");
}

#[test]
fn new_agrees_with_from_on_well_formed_keys() {
    let strict = Deta::from("abc_secret");
    let lenient = deta::new("abc_secret");
    assert_eq!(strict.project_id(), lenient.project_id());
    assert_eq!(strict.project_key(), lenient.project_key());
}

#[test]
fn clone_keeps_both_parts() {
    let deta = Deta::from("abc_secret");
    let copy = deta.clone();
    assert_eq!(copy.project_id(), "abc");
    assert_eq!(copy.project_key(), "abc_secret");
}

#[test]
fn base_and_drive_carry_the_project() {
    let deta = Deta::from("abc_secret");
    let base = deta.base("hello");
    assert_eq!(base.name, "hello");
    let request = base.get("k1");
    assert_eq!(request.method, Method::Get);
    assert_eq!(request.url, "https://database.deta.sh/v1/abc/hello/items/k1");
    assert_eq!(request.api_key, "abc_secret");
    assert_eq!(request.content_type, None);
    assert!(matches!(request.body, Body::Empty));

    let drive = deta.drive("world");
    assert_eq!(drive.name, "world");
    let request = drive.get("test.txt");
    assert_eq!(request.method, Method::Get);
    assert_eq!(request.url, "https://drive.deta.sh/v1/abc/world/files/download?name=test.txt");
    assert_eq!(request.api_key, "abc_secret");
}
