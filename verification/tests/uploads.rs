use detalib::drive::{Drive, Metadata};
use detalib::request::{Body, Method, Request};
use detalib::upload::{Upload, UploadSession, UploadStep, MAX_CHUNK_SIZE};
use detalib::Deta;

fn world() -> Drive {
    Deta::from("abc_secret").drive("world")
}

fn meta(upload_id: &str, name: &str) -> Metadata {
    Metadata {
        name: name.to_string(),
        upload_id: upload_id.to_string(),
        project_id: String::from("abc"),
        drive_name: String::from("world"),
    }
}

fn bytes_of<'a>(request: &Request<'a>) -> &'a [u8] {
    match &request.body {
        Body::Bytes(b) => b,
        _ => panic!("the request carries bytes"),
    }
}

fn patterned(len: usize) -> Vec<u8> {
    let mut content = vec![0u8; len];
    let mut i = 0;
    while i < len {
        content[i] = (i / MAX_CHUNK_SIZE) as u8 + 1;
        i += 4096;
    }
    content
}

fn session_of<'a>(upload: Upload<'a>, upload_id: &str) -> (UploadSession<'a>, Request<'a>) {
    match upload {
        Upload::Chunked(uploader, _) => match uploader.initiated(meta(upload_id, "saved")) {
            UploadStep::Part(session, request) => (session, request),
            _ => panic!("a session starts with its first part"),
        },
        Upload::Direct(_) => panic!("the content needs a session"),
    }
}

#[test]
fn chunk_size_is_ten_mebibytes() {
    assert_eq!(MAX_CHUNK_SIZE, 10 * 1024 * 1024);
    assert_eq!(MAX_CHUNK_SIZE, 10_485_760);
}

#[test]
fn a_small_file_goes_in_one_request() {
    let drive = world();
    match drive.put("test.txt", b"Hello, World!", None) {
        Upload::Direct(request) => {
            assert_eq!(request.method, Method::Post);
            assert_eq!(request.url, "https://drive.deta.sh/v1/abc/world/files?name=test.txt");
            assert_eq!(request.api_key, "abc_secret");
            assert_eq!(request.content_type.as_deref(), Some("application/octet-stream"));
            assert_eq!(bytes_of(&request), b"Hello, World!");
        }
        Upload::Chunked(..) => panic!("a small file needs no session"),
    }
}

#[test]
fn an_empty_file_goes_in_one_request() {
    let drive = world();
    match drive.put("empty", b"", Some("text/plain")) {
        Upload::Direct(request) => {
            assert_eq!(request.content_type.as_deref(), Some("text/plain"));
            assert!(bytes_of(&request).is_empty());
        }
        Upload::Chunked(..) => panic!("an empty file needs no session"),
    }
}

#[test]
fn exactly_the_chunk_size_goes_in_one_request() {
    let drive = world();
    let content = vec![7u8; MAX_CHUNK_SIZE];
    match drive.put("big.bin", &content, None) {
        Upload::Direct(request) => {
            assert_eq!(request.url, "https://drive.deta.sh/v1/abc/world/files?name=big.bin");
            assert_eq!(bytes_of(&request).len(), MAX_CHUNK_SIZE);
        }
        Upload::Chunked(..) => panic!("the chunk size itself needs no session"),
    }
}

#[test]
fn one_byte_more_takes_a_session_with_two_parts() {
    let drive = world();
    let content = patterned(MAX_CHUNK_SIZE + 1);
    let uploader = match drive.put("big.bin", &content, Some("application/x-tar")) {
        Upload::Chunked(uploader, request) => {
            assert_eq!(request.method, Method::Post);
            assert_eq!(request.url, "https://drive.deta.sh/v1/abc/world/uploads?name=big.bin");
            assert!(matches!(request.body, Body::Empty));
            uploader
        }
        Upload::Direct(_) => panic!("more than the chunk size needs a session"),
    };
    let mut parts = 0;
    let mut endings = 0;
    let session = match uploader.initiated(meta("u1", "big.bin")) {
        UploadStep::Part(session, request) => {
            parts += 1;
            assert_eq!(request.method, Method::Post);
            assert_eq!(
                request.url,
                "https://drive.deta.sh/v1/abc/world/uploads/u1/parts?name=big.bin&part=1"
            );
            assert_eq!(request.content_type.as_deref(), Some("application/x-tar"));
            assert_eq!(bytes_of(&request).len(), MAX_CHUNK_SIZE);
            assert_eq!(bytes_of(&request), &content[..MAX_CHUNK_SIZE]);
            assert_eq!(session.upload_id(), "u1");
            assert_eq!(session.target_name(), "big.bin");
            assert!(session.parts_uploaded().is_empty());
            assert!(session.all_succeeded());
            session
        }
        _ => panic!("a session starts with its first part"),
    };
    let session = match session.record(true) {
        UploadStep::Part(session, request) => {
            parts += 1;
            assert_eq!(
                request.url,
                "https://drive.deta.sh/v1/abc/world/uploads/u1/parts?name=big.bin&part=2"
            );
            assert_eq!(bytes_of(&request).len(), 1);
            assert_eq!(bytes_of(&request), &content[MAX_CHUNK_SIZE..]);
            assert_eq!(session.parts_uploaded(), &vec![1]);
            session
        }
        _ => panic!("the second part is left"),
    };
    match session.record(true) {
        UploadStep::Commit(request) => {
            endings += 1;
            assert_eq!(request.method, Method::Patch);
            assert_eq!(request.url, "https://drive.deta.sh/v1/abc/world/uploads/u1?name=big.bin");
            assert!(matches!(request.body, Body::Empty));
        }
        UploadStep::Abort(_) => panic!("all parts succeeded"),
        UploadStep::Part(..) => panic!("no part is left"),
    }
    assert_eq!(parts, 2);
    assert_eq!(endings, 1);
}

#[test]
fn a_failed_second_part_of_three_aborts() {
    let drive = world();
    let content = patterned(2 * MAX_CHUNK_SIZE + 5);
    let (session, first) = session_of(drive.put("three.bin", &content, None), "u3");
    assert_eq!(bytes_of(&first), &content[..MAX_CHUNK_SIZE]);
    let session = match session.record(true) {
        UploadStep::Part(session, request) => {
            assert_eq!(
                request.url,
                "https://drive.deta.sh/v1/abc/world/uploads/u3/parts?name=three.bin&part=2"
            );
            assert_eq!(bytes_of(&request), &content[MAX_CHUNK_SIZE..2 * MAX_CHUNK_SIZE]);
            session
        }
        _ => panic!("parts are left"),
    };
    let session = match session.record(false) {
        UploadStep::Part(session, request) => {
            assert_eq!(
                request.url,
                "https://drive.deta.sh/v1/abc/world/uploads/u3/parts?name=three.bin&part=3"
            );
            assert_eq!(bytes_of(&request), &content[2 * MAX_CHUNK_SIZE..]);
            assert_eq!(bytes_of(&request).len(), 5);
            assert_eq!(session.parts_uploaded(), &vec![1, 2]);
            assert!(!session.all_succeeded());
            session
        }
        _ => panic!("the third part is still attempted"),
    };
    match session.record(true) {
        UploadStep::Abort(request) => {
            assert_eq!(request.method, Method::Delete);
            assert_eq!(
                request.url,
                "https://drive.deta.sh/v1/abc/world/uploads/u3?name=three.bin"
            );
            assert!(matches!(request.body, Body::Empty));
        }
        UploadStep::Commit(_) => panic!("a part failed"),
        UploadStep::Part(..) => panic!("no part is left"),
    }
}

#[test]
fn a_failed_first_part_aborts_after_all_parts() {
    let drive = world();
    let content = vec![1u8; MAX_CHUNK_SIZE + 1];
    let (session, _first) = session_of(drive.put("f", &content, None), "u");
    let session = match session.record(false) {
        UploadStep::Part(session, _) => session,
        _ => panic!("the second part is still attempted"),
    };
    assert!(matches!(session.record(true), UploadStep::Abort(_)));
}

#[test]
fn a_failed_last_part_aborts() {
    let drive = world();
    let content = vec![1u8; MAX_CHUNK_SIZE + 1];
    let (session, _first) = session_of(drive.put("f", &content, None), "u");
    let session = match session.record(true) {
        UploadStep::Part(session, _) => session,
        _ => panic!("the second part is left"),
    };
    assert!(matches!(session.record(false), UploadStep::Abort(_)));
}

#[test]
fn exactly_two_chunks_make_two_parts() {
    let drive = world();
    let content = vec![1u8; 2 * MAX_CHUNK_SIZE];
    let (session, first) = session_of(drive.put("f", &content, None), "u");
    assert_eq!(bytes_of(&first).len(), MAX_CHUNK_SIZE);
    let session = match session.record(true) {
        UploadStep::Part(session, request) => {
            assert_eq!(bytes_of(&request).len(), MAX_CHUNK_SIZE);
            session
        }
        _ => panic!("the second part is left"),
    };
    assert!(matches!(session.record(true), UploadStep::Commit(_)));
}

#[test]
fn the_name_is_encoded_once_and_the_same_everywhere() {
    let drive = world();
    let content = vec![1u8; MAX_CHUNK_SIZE + 1];
    let save_as = "my file/ä&b=c+100%.txt";
    let encoded = "my%20file%2F%C3%A4%26b%3Dc%2B100%25.txt";
    let uploader = match drive.put(save_as, &content, None) {
        Upload::Chunked(uploader, request) => {
            assert_eq!(
                request.url,
                format!("https://drive.deta.sh/v1/abc/world/uploads?name={}", encoded)
            );
            uploader
        }
        Upload::Direct(_) => panic!("the content needs a session"),
    };
    let session = match uploader.initiated(meta("id7", save_as)) {
        UploadStep::Part(session, request) => {
            assert_eq!(
                request.url,
                format!(
                    "https://drive.deta.sh/v1/abc/world/uploads/id7/parts?name={}&part=1",
                    encoded
                )
            );
            assert_eq!(session.target_name(), save_as);
            session
        }
        _ => panic!("a session starts with its first part"),
    };
    let session = match session.record(true) {
        UploadStep::Part(session, request) => {
            assert_eq!(
                request.url,
                format!(
                    "https://drive.deta.sh/v1/abc/world/uploads/id7/parts?name={}&part=2",
                    encoded
                )
            );
            session
        }
        _ => panic!("the second part is left"),
    };
    match session.record(true) {
        UploadStep::Commit(request) => assert_eq!(
            request.url,
            format!("https://drive.deta.sh/v1/abc/world/uploads/id7?name={}", encoded)
        ),
        _ => panic!("all parts succeeded"),
    }

    let (session, _first) = session_of(drive.put(save_as, &content, None), "id7");
    let session = match session.record(false) {
        UploadStep::Part(session, _) => session,
        _ => panic!("the second part is left"),
    };
    match session.record(false) {
        UploadStep::Abort(request) => assert_eq!(
            request.url,
            format!("https://drive.deta.sh/v1/abc/world/uploads/id7?name={}", encoded)
        ),
        _ => panic!("a part failed"),
    }
}

#[test]
fn the_name_of_a_small_file_is_encoded_too() {
    let drive = world();
    match drive.put("a b.txt", b"x", None) {
        Upload::Direct(request) => {
            assert_eq!(request.url, "https://drive.deta.sh/v1/abc/world/files?name=a%20b.txt")
        }
        Upload::Chunked(..) => panic!("a small file needs no session"),
    }
    match drive.put("safe-Name_1.0~", b"x", None) {
        Upload::Direct(request) => {
            assert_eq!(request.url, "https://drive.deta.sh/v1/abc/world/files?name=safe-Name_1.0~")
        }
        Upload::Chunked(..) => panic!("a small file needs no session"),
    }
}

#[test]
fn part_numbers_have_all_their_digits() {
    let drive = world();
    let content = vec![0u8; 11 * MAX_CHUNK_SIZE + 1];
    let (mut session, _first) = session_of(drive.put("f", &content, None), "u");
    let mut last_url = String::new();
    let mut parts = 1;
    loop {
        match session.record(true) {
            UploadStep::Part(next, request) => {
                parts += 1;
                last_url = request.url.clone();
                session = next;
            }
            UploadStep::Commit(_) => break,
            UploadStep::Abort(_) => panic!("all parts succeeded"),
        }
    }
    assert_eq!(parts, 12);
    assert_eq!(last_url, "https://drive.deta.sh/v1/abc/world/uploads/u/parts?name=f&part=12");
}
