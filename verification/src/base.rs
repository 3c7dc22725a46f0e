//! The document store.

use crate::errors::{DetaError, Failure};
use crate::json::{
    from_list, from_object, json_of, jsons_of, new_object, no_members, put_member, Json,
};
use crate::query::{blank, Query};
use crate::request::{outcome, Body, Method, Payload, Request, Wire};
use crate::updater::{Updater, UpdaterView};
use crate::{Deta, Store};
use serde_json::Value;
use vstd::prelude::*;

verus! {

/// The most records that one `put` takes.
pub const MAX_PUT_RECORDS: usize = 25;

/// A base: a named collection of records in a project.
#[derive(Debug)]
pub struct Base {
    pub name: String,
    pub(crate) service: Deta,
}

impl View for Base {
    type V = Store;

    closed spec fn view(&self) -> Store {
        Store { name: self.name@, project: self.service@ }
    }
}

impl Clone for Base {
    fn clone(&self) -> (copy: Self)
        ensures
            copy@ == self@,
    {
        Base { name: self.name.clone(), service: self.service.clone() }
    }
}

/// The address of `path` in a base.
pub open spec fn base_url(store: Store, path: Seq<char>) -> Seq<char> {
    "https://database.deta.sh/v1/"@ + store.project.id + "/"@ + store.name + path
}

/// The request of a base for `path`, with a JSON body or none.
pub open spec fn base_wire(
    store: Store,
    method: Method,
    path: Seq<char>,
    body: Option<Json>,
) -> Wire {
    Wire {
        method,
        url: base_url(store, path),
        api_key: store.project.key,
        content_type: match body {
            Some(_) => Some("application/json"@),
            None => None,
        },
        body: match body {
            Some(j) => Payload::Json(j),
            None => Payload::Empty,
        },
    }
}

/// The path of the record `key`.
pub open spec fn item_path(key: Seq<char>) -> Seq<char> {
    "/items/"@ + key
}

/// The object with the one member `name`.
pub open spec fn single(name: Seq<char>, value: Json) -> Json {
    Json::Object(no_members().insert(name, value))
}

/// What `put` gives for `records`: the refusal of more than 25 of them, and
/// otherwise the request that stores them, overwriting records that have
/// their keys.
pub open spec fn put_wire(store: Store, records: Seq<Json>) -> Result<Wire, Failure> {
    if records.len() > MAX_PUT_RECORDS {
        Err(Failure::PayloadError { msg: "maximum 25 records can be put at a time"@ })
    } else {
        Ok(base_wire(store, Method::Put, "/items"@, Some(single("items"@, Json::List(records)))))
    }
}

impl Base {
    /// The base `name` of the project `service`.
    pub(crate) fn open(name: &str, service: Deta) -> (base: Base)
        ensures
            base@ == (Store { name: name@, project: service@ }),
    {
        Base { name: String::from_str(name), service }
    }

    /// The address of `path` in this base.
    pub fn url(&self, path: &str) -> (url: String)
        ensures
            url@ == base_url(self@, path@),
    {
        let mut url = String::from_str("https://database.deta.sh/v1/");
        url.append(self.service.project_id());
        url.append("/");
        url.append(self.name.as_str());
        url.append(path);
        url
    }

    /// The request of this base for `path`.
    pub fn request(&self, method: Method, path: &str, body: Option<Value>) -> (r: Request<'static>)
        ensures
            r@ == base_wire(
                self@,
                method,
                path@,
                match body {
                    Some(v) => Some(json_of(v)),
                    None => None,
                },
            ),
    {
        let url = self.url(path);
        let api_key = String::from_str(self.service.project_key());
        match body {
            Some(v) => Request {
                method,
                url,
                api_key,
                content_type: Some(String::from_str("application/json")),
                body: Body::Json(v),
            },
            None => Request { method, url, api_key, content_type: None, body: Body::Empty },
        }
    }

    /// The request that fetches the record `key`.
    pub fn get(&self, key: &str) -> (r: Request<'static>)
        ensures
            r@ == base_wire(self@, Method::Get, item_path(key@), None),
    {
        let mut path = String::from_str("/items/");
        path.append(key);
        self.request(Method::Get, path.as_str(), None)
    }

    /// The request that stores `records`, or the refusal of more than 25.
    pub fn put(&self, records: Vec<Value>) -> (r: Result<Request<'static>, DetaError>)
        ensures
            outcome(r) == put_wire(self@, jsons_of(records@)),
    {
        if records.len() > MAX_PUT_RECORDS {
            return Err(DetaError::payload("maximum 25 records can be put at a time"));
        }
        let mut payload = new_object();
        put_member(&mut payload, String::from_str("items"), from_list(records));
        Ok(self.request(Method::Put, "/items", Some(from_object(payload))))
    }

    /// The request that stores `record` unless a record has its key.
    pub fn insert(&self, record: Value) -> (r: Request<'static>)
        ensures
            r@ == base_wire(self@, Method::Post, "/items"@, Some(single("item"@, json_of(record)))),
    {
        let mut payload = new_object();
        put_member(&mut payload, String::from_str("item"), record);
        self.request(Method::Post, "/items", Some(from_object(payload)))
    }

    /// The request that deletes the record `key`.
    pub fn delete(&self, key: &str) -> (r: Request<'static>)
        ensures
            r@ == base_wire(self@, Method::Delete, item_path(key@), None),
    {
        let mut path = String::from_str("/items/");
        path.append(key);
        self.request(Method::Delete, path.as_str(), None)
    }

    /// An updater of the record `key`, without updates.
    pub fn update(&self, key: &str) -> (u: Updater)
        ensures
            u@ == (UpdaterView { store: self@, key: key@, changes: Seq::empty() }),
    {
        Updater::new(self.clone(), key)
    }

    /// A query on this base that nothing was set of yet.
    pub fn query(&self) -> (q: Query)
        ensures
            q@ == blank(self@),
    {
        Query::new(self.clone())
    }
}

} // verus!
