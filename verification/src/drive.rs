//! The blob store.

use crate::errors::{DetaError, Failure};
use crate::json::{
    from_list, from_object, from_string, json_of, jsons_of, new_object, no_members, put_member,
    texts_as_json, Json,
};
use crate::query::{Cursor, Paging};
use crate::request::{outcome, Body, Method, Payload, Request, Wire};
use crate::text::{opt_str_text, opt_text, own_opt_str, push_signed_decimal, signed_decimal};
use crate::{Deta, Store};
use serde_json::Value;
use vstd::prelude::*;

verus! {

/// A drive: a named collection of files in a project.
#[derive(Debug)]
pub struct Drive {
    pub name: String,
    pub(crate) service: Deta,
}

impl View for Drive {
    type V = Store;

    closed spec fn view(&self) -> Store {
        Store { name: self.name@, project: self.service@ }
    }
}

impl Clone for Drive {
    fn clone(&self) -> (copy: Self)
        ensures
            copy@ == self@,
    {
        Drive { name: self.name.clone(), service: self.service.clone() }
    }
}

/// The address of `path` in a drive.
pub open spec fn drive_url(store: Store, path: Seq<char>) -> Seq<char> {
    "https://drive.deta.sh/v1/"@ + store.project.id + "/"@ + store.name + path
}

/// What an optional JSON value holds.
pub open spec fn opt_json(v: Option<Value>) -> Option<Json> {
    match v {
        Some(v) => Some(json_of(v)),
        None => None,
    }
}

/// The bytes of an optional slice.
pub open spec fn opt_bytes(b: Option<&[u8]>) -> Option<Seq<u8>> {
    match b {
        Some(b) => Some(b@),
        None => None,
    }
}

/// The request of a drive for `path`. A JSON body and a binary body exclude
/// each other. A JSON body is announced as JSON; a binary body as
/// `content_type`, or as an octet stream where the caller names no type.
pub open spec fn drive_wire(
    store: Store,
    method: Method,
    path: Seq<char>,
    json: Option<Json>,
    body: Option<Seq<u8>>,
    content_type: Option<Seq<char>>,
) -> Result<Wire, Failure> {
    match (json, body) {
        (Some(_), Some(_)) => Err(
            Failure::PayloadError { msg: "body and json are mutually exclusive."@ },
        ),
        (Some(j), None) => Ok(
            Wire {
                method,
                url: drive_url(store, path),
                api_key: store.project.key,
                content_type: Some("application/json"@),
                body: Payload::Json(j),
            },
        ),
        (None, Some(b)) => Ok(
            Wire {
                method,
                url: drive_url(store, path),
                api_key: store.project.key,
                content_type: Some(
                    match content_type {
                        Some(c) => c,
                        None => "application/octet-stream"@,
                    },
                ),
                body: Payload::Bytes(b),
            },
        ),
        (None, None) => Ok(
            Wire {
                method,
                url: drive_url(store, path),
                api_key: store.project.key,
                content_type: None,
                body: Payload::Empty,
            },
        ),
    }
}

/// The request without a body of a drive for `path`.
pub open spec fn plain_wire(store: Store, method: Method, path: Seq<char>) -> Wire {
    Wire {
        method,
        url: drive_url(store, path),
        api_key: store.project.key,
        content_type: None,
        body: Payload::Empty,
    }
}

/// The path that lists files: at most `limit` of them (1000 where no limit
/// is given), those whose names start with `prefix`, after the cursor `last`.
pub open spec fn list_path(
    prefix: Option<Seq<char>>,
    limit: Option<i32>,
    last: Option<Seq<char>>,
) -> Seq<char> {
    "/files?limit="@ + signed_decimal(
        match limit {
            Some(n) => n as int,
            None => 1000,
        },
    ) + (match prefix {
        Some(p) => "&prefix="@ + p,
        None => Seq::empty(),
    }) + (match last {
        Some(l) => "&last="@ + l,
        None => Seq::empty(),
    })
}

/// The path that downloads the file `name`.
pub open spec fn download_path(name: Seq<char>) -> Seq<char> {
    "/files/download?name="@ + name
}

/// The texts of a list of string slices.
pub open spec fn str_texts(names: Seq<&str>) -> Seq<Seq<char>> {
    names.map_values(|n: &str| n@)
}

/// The body that names the files to delete.
pub open spec fn names_body(names: Seq<Seq<char>>) -> Json {
    Json::Object(no_members().insert("names"@, Json::List(texts_as_json(names))))
}

/// A page of a file listing.
#[derive(Debug)]
pub struct FileList {
    /// Where the page ends; absent on the last page.
    pub paging: Option<Paging>,
    /// The names of the files of the page.
    pub names: Vec<String>,
}

/// What a `FileList` holds.
pub struct Listing {
    pub paging: Option<Cursor>,
    pub names: Seq<Seq<char>>,
}

/// The texts of a list of strings.
pub open spec fn texts(names: Seq<String>) -> Seq<Seq<char>> {
    names.map_values(|n: String| n@)
}

impl View for FileList {
    type V = Listing;

    open spec fn view(&self) -> Listing {
        Listing {
            paging: match self.paging {
                Some(p) => Some(p@),
                None => None,
            },
            names: texts(self.names@),
        }
    }
}

/// What the service reports of a new upload session.
#[derive(Debug)]
pub struct Metadata {
    pub name: String,
    pub upload_id: String,
    pub project_id: String,
    pub drive_name: String,
}

/// A listing of all files of a drive, under way: the names gathered so far
/// and what the next request needs.
#[derive(Debug)]
pub struct FileWalk {
    drive: Drive,
    prefix: Option<String>,
    files: Vec<String>,
}

/// What a `FileWalk` holds.
pub struct FileWalkView {
    pub store: Store,
    pub prefix: Option<Seq<char>>,
    pub files: Seq<Seq<char>>,
}

impl View for FileWalk {
    type V = FileWalkView;

    closed spec fn view(&self) -> FileWalkView {
        FileWalkView {
            store: self.drive@,
            prefix: opt_text(self.prefix),
            files: texts(self.files@),
        }
    }
}

/// What follows a page of a file listing.
#[derive(Debug)]
pub enum FileStep {
    /// Another page is to be fetched with this request.
    Next(FileWalk, Request<'static>),
    /// The listing is over: these are the names.
    Done(Vec<String>),
}

/// What a `FileStep` holds.
pub enum FileStepView {
    Next(FileWalkView, Wire),
    Done(Seq<Seq<char>>),
}

impl View for FileStep {
    type V = FileStepView;

    open spec fn view(&self) -> FileStepView {
        match self {
            FileStep::Next(walk, request) => FileStepView::Next(walk@, request@),
            FileStep::Done(names) => FileStepView::Done(texts(names@)),
        }
    }
}

/// What a page or the failure to get one holds.
pub open spec fn page_outcome(reply: Result<FileList, DetaError>) -> Result<Listing, Failure> {
    match reply {
        Ok(list) => Ok(list@),
        Err(e) => Err(e@),
    }
}

/// The cursor after which a listing goes on: that of the page, unless it is
/// absent or empty.
pub open spec fn cursor_after(paging: Option<Cursor>) -> Option<Seq<char>> {
    match paging {
        Some(p) => if p.last.len() > 0 {
            Some(p.last)
        } else {
            None
        },
        None => None,
    }
}

/// The request for the page of a listing that follows the cursor `last`;
/// for the first page where `last` is absent.
pub open spec fn page_wire(
    store: Store,
    prefix: Option<Seq<char>>,
    last: Option<Seq<char>>,
) -> Wire {
    plain_wire(store, Method::Get, list_path(prefix, Some(1000), last))
}

/// The start of a listing of all files whose names start with `prefix`.
pub open spec fn file_walk_start(store: Store, prefix: Option<Seq<char>>) -> FileWalkView {
    FileWalkView { store, prefix, files: Seq::empty() }
}

/// What follows a reply in a file listing. A page adds its names; the listing
/// goes on while the page gives a cursor. A failure ends the listing with the
/// names gathered before it.
pub open spec fn file_step(walk: FileWalkView, reply: Result<Listing, Failure>) -> FileStepView {
    match reply {
        Err(_) => FileStepView::Done(walk.files),
        Ok(list) => {
            let files = walk.files + list.names;
            match cursor_after(list.paging) {
                Some(last) => FileStepView::Next(
                    FileWalkView { store: walk.store, prefix: walk.prefix, files },
                    page_wire(walk.store, walk.prefix, Some(last)),
                ),
                None => FileStepView::Done(files),
            }
        },
    }
}

impl FileWalk {
    /// What follows the reply to the last request of this listing.
    pub fn step(self, reply: Result<FileList, DetaError>) -> (step: FileStep)
        ensures
            step@ == file_step(self@, page_outcome(reply)),
    {
        let mut walk = self;
        match reply {
            Err(_) => FileStep::Done(walk.files),
            Ok(list) => {
                let mut names = list.names;
                walk.files.append(&mut names);
                assert(texts(walk.files@) =~= texts(self.files@) + texts(list.names@));
                match list.paging {
                    Some(paging) => {
                        if paging.last.as_str().is_empty() {
                            FileStep::Done(walk.files)
                        } else {
                            let last = Some(paging.last.as_str());
                            let request = match &walk.prefix {
                                Some(p) => walk.drive.list(Some(p.as_str()), Some(1000), last),
                                None => walk.drive.list(None, Some(1000), last),
                            };
                            FileStep::Next(walk, request)
                        }
                    },
                    None => FileStep::Done(walk.files),
                }
            },
        }
    }
}

impl Drive {
    /// The drive `name` of the project `service`.
    pub(crate) fn open(name: &str, service: Deta) -> (drive: Drive)
        ensures
            drive@ == (Store { name: name@, project: service@ }),
    {
        Drive { name: String::from_str(name), service }
    }

    /// The address of `path` in this drive.
    pub fn url(&self, path: &str) -> (url: String)
        ensures
            url@ == drive_url(self@, path@),
    {
        let mut url = String::from_str("https://drive.deta.sh/v1/");
        url.append(self.service.project_id());
        url.append("/");
        url.append(self.name.as_str());
        url.append(path);
        url
    }

    /// The request of this drive for `path`, or the refusal of a request
    /// that would carry two bodies.
    pub fn request<'a>(
        &self,
        method: Method,
        path: &str,
        json: Option<Value>,
        body: Option<&'a [u8]>,
        content_type: Option<&str>,
    ) -> (r: Result<Request<'a>, DetaError>)
        ensures
            outcome(r) == drive_wire(
                self@,
                method,
                path@,
                opt_json(json),
                opt_bytes(body),
                opt_str_text(content_type),
            ),
    {
        let url = self.url(path);
        let api_key = String::from_str(self.service.project_key());
        match (json, body) {
            (Some(_), Some(_)) => Err(DetaError::payload("body and json are mutually exclusive.")),
            (Some(o), None) => Ok(
                Request {
                    method,
                    url,
                    api_key,
                    content_type: Some(String::from_str("application/json")),
                    body: Body::Json(o),
                },
            ),
            (None, Some(b)) => {
                let announced = match content_type {
                    Some(c) => String::from_str(c),
                    None => String::from_str("application/octet-stream"),
                };
                Ok(
                    Request {
                        method,
                        url,
                        api_key,
                        content_type: Some(announced),
                        body: Body::Bytes(b),
                    },
                )
            },
            (None, None) => Ok(
                Request { method, url, api_key, content_type: None, body: Body::Empty },
            ),
        }
    }

    /// The request of this drive for `path` that carries no body.
    pub fn plain_request(&self, method: Method, path: &str) -> (r: Request<'static>)
        ensures
            r@ == plain_wire(self@, method, path@),
    {
        self.request(method, path, None, None, None).unwrap()
    }

    /// The request that lists files of this drive.
    pub fn list(&self, prefix: Option<&str>, limit: Option<i32>, last: Option<&str>) -> (r: Request<
        'static,
    >)
        ensures
            r@ == plain_wire(
                self@,
                Method::Get,
                list_path(opt_str_text(prefix), limit, opt_str_text(last)),
            ),
    {
        let mut path = String::from_str("/files?limit=");
        match limit {
            Some(n) => push_signed_decimal(&mut path, n as i64),
            None => push_signed_decimal(&mut path, 1000),
        }
        if let Some(p) = prefix {
            path.append("&prefix=");
            path.append(p);
        }
        if let Some(l) = last {
            path.append("&last=");
            path.append(l);
        }
        assert(path@ =~= list_path(opt_str_text(prefix), limit, opt_str_text(last)));
        self.plain_request(Method::Get, path.as_str())
    }

    /// Starts a listing of all files whose names start with `prefix`: the
    /// listing and its first request. `FileWalk::step` takes each reply.
    pub fn walk(&self, prefix: Option<&str>) -> (start: (FileWalk, Request<'static>))
        ensures
            start.0@ == file_walk_start(self@, opt_str_text(prefix)),
            start.1@ == plain_wire(self@, Method::Get, list_path(opt_str_text(prefix), None, None)),
    {
        let walk = FileWalk { drive: self.clone(), prefix: own_opt_str(prefix), files: Vec::new() };
        assert(texts(walk.files@) =~= Seq::empty());
        (walk, self.list(prefix, None, None))
    }

    /// The request that downloads the file `name`.
    pub fn get(&self, name: &str) -> (r: Request<'static>)
        ensures
            r@ == plain_wire(self@, Method::Get, download_path(name@)),
    {
        let mut path = String::from_str("/files/download?name=");
        path.append(name);
        self.plain_request(Method::Get, path.as_str())
    }

    /// The request that deletes the files `names`.
    pub fn delete(&self, names: Vec<&str>) -> (r: Request<'static>)
        ensures
            r@ == (Wire {
                method: Method::Delete,
                url: drive_url(self@, "/files"@),
                api_key: self@.project.key,
                content_type: Some("application/json"@),
                body: Payload::Json(names_body(str_texts(names@))),
            }),
    {
        let mut listed: Vec<Value> = Vec::new();
        let mut i: usize = 0;
        while i < names.len()
            invariant
                i <= names.len(),
                listed.len() == i,
                forall|j: int|
                    0 <= j < i ==> json_of(#[trigger] listed@[j]) == Json::Text(names@[j]@),
            decreases names.len() - i,
        {
            listed.push(from_string(String::from_str(names[i])));
            i = i + 1;
        }
        let mut members = new_object();
        let list = from_list(listed);
        assert(json_of(list) == Json::List(texts_as_json(str_texts(names@)))) by {
            assert(jsons_of(listed@) =~= texts_as_json(str_texts(names@)));
        }
        put_member(&mut members, String::from_str("names"), list);
        self.request(Method::Delete, "/files", Some(from_object(members)), None, None).unwrap()
    }
}

} // verus!
