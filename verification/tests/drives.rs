use detalib::drive::{Drive, FileList, FileStep};
use detalib::errors::DetaError;
use detalib::query::Paging;
use detalib::request::{Body, Method};
use detalib::Deta;
use serde_json::Value;

fn parse(text: &str) -> Value {
    serde_json::from_str(text).unwrap()
}

fn world() -> Drive {
    Deta::from("abc_secret").drive("world")
}

fn names(list: &[&str]) -> Vec<String> {
    list.iter().map(|n| n.to_string()).collect()
}

fn listing(list: &[&str], last: Option<&str>) -> FileList {
    FileList {
        paging: last.map(|l| Paging { size: list.len() as u16, last: l.to_string() }),
        names: names(list),
    }
}

#[test]
fn drive_url_joins_project_name_and_path() {
    assert_eq!(world().url("/files"), "https://drive.deta.sh/v1/abc/world/files");
}

#[test]
fn a_request_cannot_carry_two_bodies() {
    let bytes = [1u8, 2, 3];
    let refused = world()
        .request(Method::Post, "/files", Some(parse("{}")), Some(&bytes), None)
        .unwrap_err();
    assert_eq!(
        refused,
        DetaError::PayloadError { msg: String::from("body and json are mutually exclusive.") }
    );
}

#[test]
fn a_json_request_is_announced_as_json() {
    let names = parse(r#"{"names":["a"]}"#);
    let request =
        world().request(Method::Delete, "/files", Some(names), None, Some("text/plain")).unwrap();
    assert_eq!(request.method, Method::Delete);
    assert_eq!(request.url, "https://drive.deta.sh/v1/abc/world/files");
    assert_eq!(request.api_key, "abc_secret");
    assert_eq!(request.content_type.as_deref(), Some("application/json"));
    match &request.body {
        Body::Json(v) => assert_eq!(v, &parse(r#"{"names":["a"]}"#)),
        _ => panic!("the JSON is the body"),
    }
}

#[test]
fn a_binary_request_is_announced_as_the_caller_says() {
    let bytes = [1u8, 2, 3];
    let request = world()
        .request(Method::Post, "/files?name=a", None, Some(&bytes), Some("image/png"))
        .unwrap();
    assert_eq!(request.content_type.as_deref(), Some("image/png"));
    match &request.body {
        Body::Bytes(b) => assert_eq!(*b, &bytes[..]),
        _ => panic!("the bytes are the body"),
    }
}

#[test]
fn a_binary_request_is_an_octet_stream_by_default() {
    let bytes = [1u8, 2, 3];
    let request = world().request(Method::Post, "/files?name=a", None, Some(&bytes), None).unwrap();
    assert_eq!(request.content_type.as_deref(), Some("application/octet-stream"));
}

#[test]
fn a_request_without_body_announces_nothing() {
    let request = world().request(Method::Get, "/files", None, None, Some("text/plain")).unwrap();
    assert_eq!(request.content_type, None);
    assert!(matches!(request.body, Body::Empty));
    let plain = world().plain_request(Method::Patch, "/uploads/u");
    assert_eq!(plain.method, Method::Patch);
    assert_eq!(plain.url, "https://drive.deta.sh/v1/abc/world/uploads/u");
    assert!(matches!(plain.body, Body::Empty));
}

#[test]
fn list_defaults_to_a_thousand() {
    let request = world().list(None, None, None);
    assert_eq!(request.method, Method::Get);
    assert_eq!(request.url, "https://drive.deta.sh/v1/abc/world/files?limit=1000");
    assert!(matches!(request.body, Body::Empty));
}

#[test]
fn list_with_all_parameters() {
    let request = world().list(Some("img/"), Some(25), Some("img/z.png"));
    assert_eq!(
        request.url,
        "https://drive.deta.sh/v1/abc/world/files?limit=25&prefix=img/&last=img/z.png"
    );
}

#[test]
fn list_with_prefix_or_cursor_alone() {
    assert_eq!(
        world().list(Some("p"), None, None).url,
        "https://drive.deta.sh/v1/abc/world/files?limit=1000&prefix=p"
    );
    assert_eq!(
        world().list(None, None, Some("c")).url,
        "https://drive.deta.sh/v1/abc/world/files?limit=1000&last=c"
    );
}

#[test]
fn list_writes_any_limit_in_decimal() {
    assert_eq!(
        world().list(None, Some(0), None).url,
        "https://drive.deta.sh/v1/abc/world/files?limit=0"
    );
    assert_eq!(
        world().list(None, Some(7), None).url,
        "https://drive.deta.sh/v1/abc/world/files?limit=7"
    );
    assert_eq!(
        world().list(None, Some(-12), None).url,
        "https://drive.deta.sh/v1/abc/world/files?limit=-12"
    );
    assert_eq!(
        world().list(None, Some(i32::MAX), None).url,
        "https://drive.deta.sh/v1/abc/world/files?limit=2147483647"
    );
    assert_eq!(
        world().list(None, Some(i32::MIN), None).url,
        "https://drive.deta.sh/v1/abc/world/files?limit=-2147483648"
    );
    assert_eq!(
        world().list(None, Some(1000), None).url,
        world().list(None, None, None).url
    );
}

#[test]
fn get_names_the_file() {
    let request = world().get("test.txt");
    assert_eq!(request.method, Method::Get);
    assert_eq!(request.url, "https://drive.deta.sh/v1/abc/world/files/download?name=test.txt");
}

#[test]
fn delete_lists_the_names() {
    let request = world().delete(vec!["a.txt", "b c.txt"]);
    assert_eq!(request.method, Method::Delete);
    assert_eq!(request.url, "https://drive.deta.sh/v1/abc/world/files");
    assert_eq!(request.content_type.as_deref(), Some("application/json"));
    match &request.body {
        Body::Json(v) => assert_eq!(v.to_string(), r#"{"names":["a.txt","b c.txt"]}"#),
        _ => panic!("a delete carries JSON"),
    }
}

#[test]
fn delete_of_nothing_lists_nothing() {
    let request = world().delete(Vec::new());
    match &request.body {
        Body::Json(v) => assert_eq!(v.to_string(), r#"{"names":[]}"#),
        _ => panic!("a delete carries JSON"),
    }
}

#[test]
fn file_walk_over_three_pages() {
    let (walk, first) = world().walk(Some("img/"));
    assert_eq!(first.url, "https://drive.deta.sh/v1/abc/world/files?limit=1000&prefix=img/");
    let walk = match walk.step(Ok(listing(&["img/a", "img/b"], Some("img/b")))) {
        FileStep::Next(walk, request) => {
            assert_eq!(
                request.url,
                "https://drive.deta.sh/v1/abc/world/files?limit=1000&prefix=img/&last=img/b"
            );
            walk
        }
        _ => panic!("a cursor asks for another page"),
    };
    let walk = match walk.step(Ok(listing(&["img/c"], Some("img/c")))) {
        FileStep::Next(walk, request) => {
            assert_eq!(
                request.url,
                "https://drive.deta.sh/v1/abc/world/files?limit=1000&prefix=img/&last=img/c"
            );
            walk
        }
        _ => panic!("a cursor asks for another page"),
    };
    match walk.step(Ok(listing(&["img/d"], None))) {
        FileStep::Done(files) => assert_eq!(files, names(&["img/a", "img/b", "img/c", "img/d"])),
        _ => panic!("a page without paging ends the listing"),
    }
}

#[test]
fn file_walk_without_prefix() {
    let (walk, first) = world().walk(None);
    assert_eq!(first.url, "https://drive.deta.sh/v1/abc/world/files?limit=1000");
    match walk.step(Ok(listing(&["a"], Some("a")))) {
        FileStep::Next(_, request) => {
            assert_eq!(request.url, "https://drive.deta.sh/v1/abc/world/files?limit=1000&last=a")
        }
        _ => panic!("a cursor asks for another page"),
    }
}

#[test]
fn file_walk_ends_on_an_empty_cursor() {
    let (walk, _first) = world().walk(None);
    match walk.step(Ok(listing(&["a", "b"], Some("")))) {
        FileStep::Done(files) => assert_eq!(files, names(&["a", "b"])),
        _ => panic!("an empty cursor ends the listing"),
    }
}

#[test]
fn file_walk_gives_nothing_when_the_first_request_fails() {
    let (walk, _first) = world().walk(None);
    match walk.step(Err(DetaError::NotFound)) {
        FileStep::Done(files) => assert!(files.is_empty()),
        _ => panic!("a failure ends the listing"),
    }
}

#[test]
fn file_walk_keeps_its_names_when_a_later_request_fails() {
    let (walk, _first) = world().walk(None);
    let walk = match walk.step(Ok(listing(&["a", "b"], Some("b")))) {
        FileStep::Next(walk, _) => walk,
        _ => panic!("a cursor asks for another page"),
    };
    match walk.step(Err(DetaError::TransportError)) {
        FileStep::Done(files) => assert_eq!(files, names(&["a", "b"])),
        _ => panic!("a failure ends the listing"),
    }
}

#[test]
fn drive_clone_serves_the_same_drive() {
    let drive = world();
    let copy = drive.clone();
    assert_eq!(copy.name, "world");
    assert_eq!(copy.url("/x"), drive.url("/x"));
    assert_eq!(copy.get("f").api_key, "abc_secret");
}
