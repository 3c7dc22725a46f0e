//! A client for the Deta document store (Base) and blob store (Drive).
//!
//! The library builds requests and decides what follows each response; it
//! sends nothing itself. Every function here is verified against its
//! contract, but for the few that stand for a call into another crate and
//! say so.

use vstd::prelude::*;
use vstd::std_specs::iter::IteratorSpec;

pub mod base;
pub mod deta;
pub mod drive;
pub mod errors;
pub mod json;
pub mod query;
pub mod request;
pub mod text;
pub mod updater;
pub mod upload;
pub mod utils;

use crate::base::Base;
use crate::drive::Drive;

verus! {

/// Whether the only underscore of `key` stands at `at`.
pub open spec fn splits_at(key: Seq<char>, at: int) -> bool {
    &&& 0 <= at < key.len()
    &&& key[at] == '_'
    &&& forall|j: int| 0 <= j < key.len() && j != at ==> key[j] != '_'
}

/// A project key has the form `projectId_secret`: exactly one underscore.
pub open spec fn well_formed_key(key: Seq<char>) -> bool {
    exists|at: int| splits_at(key, at)
}

/// What stands before the first underscore of `key`; all of `key` where it
/// has none.
pub open spec fn first_segment(key: Seq<char>) -> Seq<char> {
    match key.index_of_first('_') {
        Some(at) => key.take(at),
        None => key,
    }
}

/// The project identifier of a well-formed key, nothing for any other key.
pub fn validate(key: &str) -> (id: Option<&str>)
    ensures
        id is Some <==> well_formed_key(key@),
        id matches Some(p) ==> p@ == first_segment(key@),
{
    broadcast use vstd::string::group_string_axioms;

    let mut first: Option<usize> = None;
    let mut i: usize = 0;
    let n = key.unicode_len();
    let mut it = key.chars();
    loop
        invariant
            it.remaining() == key@.skip(i as int),
            i <= n == key@.len(),
            first matches Some(at) ==> at < i && key@[at as int] == '_',
            forall|j: int| 0 <= j < i && first != Some(j as usize) ==> key@[j] != '_',
        ensures
            i == n,
        decreases n - i,
    {
        match it.next() {
            None => {
                break ;
            },
            Some(c) => {
                if c == '_' {
                    if first.is_some() {
                        return None;
                    }
                    first = Some(i);
                }
                i = i + 1;
            },
        }
    }
    proof {
        key@.index_of_first_ensures('_');
    }
    match first {
        Some(at) => {
            assert(splits_at(key@, at as int));
            Some(key.substring_char(0, at))
        },
        None => None,
    }
}

/// A project of the service: its identifier and the key that opens it.
#[derive(Debug)]
pub struct Deta {
    project_id: String,
    project_key: String,
}

/// What a `Deta` holds.
pub struct Project {
    pub id: Seq<char>,
    pub key: Seq<char>,
}

/// What a base or a drive holds: its name and its project.
pub struct Store {
    pub name: Seq<char>,
    pub project: Project,
}

impl View for Deta {
    type V = Project;

    closed spec fn view(&self) -> Project {
        Project { id: self.project_id@, key: self.project_key@ }
    }
}

impl Clone for Deta {
    fn clone(&self) -> (copy: Self)
        ensures
            copy@ == self@,
    {
        Deta { project_id: self.project_id.clone(), project_key: self.project_key.clone() }
    }
}

impl Deta {
    /// The project that `project_key` opens. The key must be well formed:
    /// `validate` tells.
    pub fn from(project_key: &str) -> (deta: Deta)
        requires
            well_formed_key(project_key@),
        ensures
            deta@ == (Project { id: first_segment(project_key@), key: project_key@ }),
    {
        let id = validate(project_key).unwrap();
        Deta { project_id: String::from_str(id), project_key: String::from_str(project_key) }
    }

    /// A project from its two parts, whatever they hold.
    pub(crate) fn from_parts(project_id: String, project_key: String) -> (deta: Deta)
        ensures
            deta@ == (Project { id: project_id@, key: project_key@ }),
    {
        Deta { project_id, project_key }
    }

    /// The identifier of the project.
    pub fn project_id(&self) -> (id: &str)
        ensures
            id@ == self@.id,
    {
        self.project_id.as_str()
    }

    /// The key of the project.
    pub fn project_key(&self) -> (key: &str)
        ensures
            key@ == self@.key,
    {
        self.project_key.as_str()
    }

    /// The base `name` of this project.
    pub fn base(&self, name: &str) -> (base: Base)
        ensures
            base@ == (Store { name: name@, project: self@ }),
    {
        Base::open(name, self.clone())
    }

    /// The drive `name` of this project.
    pub fn drive(&self, name: &str) -> (drive: Drive)
        ensures
            drive@ == (Store { name: name@, project: self@ }),
    {
        Drive::open(name, self.clone())
    }
}

} // verus!
