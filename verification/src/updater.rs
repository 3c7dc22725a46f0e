//! Partial updates of a record.

use crate::base::{base_wire, item_path, single, Base};
use crate::json::{
    copy_value, from_list, from_object, from_string, json_of, jsons_of, new_object, no_members,
    null, put_member, Json, Members,
};
use crate::request::{Method, Request};
use crate::Store;
use serde_json::Value;
use vstd::prelude::*;

verus! {

/// What an update does to a field.
#[derive(Debug, Clone, Copy, PartialEq, Eq, Structural)]
pub enum Operation {
    /// Set the field to the given value.
    Assign,
    /// Delete the field.
    Delete,
    /// Append the given value to the field.
    Append,
    /// Prepend the given value to the field.
    Prepend,
    /// Increment the field by the given number; a negative one decrements.
    Increment,
}

/// The name of an operation on the wire.
pub open spec fn operation_name(operation: Operation) -> Seq<char> {
    match operation {
        Operation::Assign => "set"@,
        Operation::Delete => "delete"@,
        Operation::Append => "append"@,
        Operation::Prepend => "prepend"@,
        Operation::Increment => "increment"@,
    }
}

impl Operation {
    /// The name of this operation on the wire.
    pub fn as_string(&self) -> (name: String)
        ensures
            name@ == operation_name(*self),
    {
        match self {
            Operation::Assign => String::from_str("set"),
            Operation::Delete => String::from_str("delete"),
            Operation::Append => String::from_str("append"),
            Operation::Prepend => String::from_str("prepend"),
            Operation::Increment => String::from_str("increment"),
        }
    }
}

/// The updates of one record, in the order in which they were asked for.
/// The value of a deletion is ignored.
#[derive(Debug)]
pub struct Updater {
    key: String,
    base: Base,
    data: Vec<(String, Value, Operation)>,
}

/// One update: what is done to which field, and with which value.
pub struct Change {
    pub field: Seq<char>,
    pub value: Json,
    pub operation: Operation,
}

/// What an `Updater` holds.
pub struct UpdaterView {
    pub store: Store,
    pub key: Seq<char>,
    pub changes: Seq<Change>,
}

/// What a list of updates holds.
pub open spec fn changes_of(data: Seq<(String, Value, Operation)>) -> Seq<Change> {
    data.map_values(
        |u: (String, Value, Operation)| Change { field: u.0@, value: json_of(u.1), operation: u.2 },
    )
}

impl View for Updater {
    type V = UpdaterView;

    closed spec fn view(&self) -> UpdaterView {
        UpdaterView { store: self.base@, key: self.key@, changes: changes_of(self.data@) }
    }
}

/// An updater with one more update.
pub open spec fn with_change(
    u: UpdaterView,
    field: Seq<char>,
    value: Json,
    operation: Operation,
) -> UpdaterView {
    UpdaterView {
        store: u.store,
        key: u.key,
        changes: u.changes.push(Change { field, value, operation }),
    }
}

/// An update on the wire: the name of the field for a deletion, and for any
/// other operation the object in which the field names the value.
pub open spec fn change_json(change: Change) -> Json {
    if change.operation == Operation::Delete {
        Json::Text(change.field)
    } else {
        single(change.field, change.value)
    }
}

/// The updates with the operation `operation` on the wire, in their order.
pub open spec fn changes_by(changes: Seq<Change>, operation: Operation) -> Seq<Json> {
    changes.filter(|c: Change| c.operation == operation).map_values(|c: Change| change_json(c))
}

/// The members `m` and, where `changes` has updates with `operation`, the
/// list of them under the name of that operation.
pub open spec fn with_changes_by(
    m: Members,
    changes: Seq<Change>,
    operation: Operation,
) -> Members {
    if changes_by(changes, operation).len() > 0 {
        m.insert(operation_name(operation), Json::List(changes_by(changes, operation)))
    } else {
        m
    }
}

/// The updates on the wire: an object that lists under the name of each
/// operation the updates that have it, and that leaves out an operation
/// without updates.
pub open spec fn update_json(changes: Seq<Change>) -> Json {
    Json::Object(
        with_changes_by(
            with_changes_by(
                with_changes_by(
                    with_changes_by(
                        with_changes_by(no_members(), changes, Operation::Assign),
                        changes,
                        Operation::Delete,
                    ),
                    changes,
                    Operation::Append,
                ),
                changes,
                Operation::Prepend,
            ),
            changes,
            Operation::Increment,
        ),
    )
}

proof fn lemma_changes_by_push(changes: Seq<Change>, change: Change, operation: Operation)
    ensures
        changes_by(changes.push(change), operation) == if change.operation == operation {
            changes_by(changes, operation).push(change_json(change))
        } else {
            changes_by(changes, operation)
        },
{
    assert(changes.push(change).drop_last() =~= changes);
    reveal(Seq::filter);
}

impl Updater {
    /// The updater of the record `key` of `base`, without updates.
    pub(crate) fn new(base: Base, key: &str) -> (u: Updater)
        ensures
            u@ == (UpdaterView { store: base@, key: key@, changes: Seq::empty() }),
    {
        let u = Updater { base, key: String::from_str(key), data: Vec::new() };
        assert(changes_of(u.data@) =~= Seq::empty());
        u
    }

    fn push(self, field: &str, value: Value, operation: Operation) -> (u: Updater)
        ensures
            u@ == with_change(self@, field@, json_of(value), operation),
    {
        let mut u = self;
        u.data.push((String::from_str(field), value, operation));
        assert(changes_of(u.data@) =~= changes_of(self.data@).push(
            Change { field: field@, value: json_of(value), operation },
        ));
        u
    }

    /// Sets `field` to `value`, overwriting what it held.
    pub fn set(self, field: &str, value: Value) -> (u: Updater)
        ensures
            u@ == with_change(self@, field@, json_of(value), Operation::Assign),
    {
        self.push(field, value, Operation::Assign)
    }

    /// Deletes `field` from the record.
    pub fn delete(self, field: &str) -> (u: Updater)
        ensures
            u@ == with_change(self@, field@, Json::Null, Operation::Delete),
    {
        self.push(field, null(), Operation::Delete)
    }

    /// Appends `value` to `field`, which holds a list.
    pub fn append(self, field: &str, value: Value) -> (u: Updater)
        ensures
            u@ == with_change(self@, field@, json_of(value), Operation::Append),
    {
        self.push(field, value, Operation::Append)
    }

    /// Prepends `value` to `field`, which holds a list.
    pub fn prepend(self, field: &str, value: Value) -> (u: Updater)
        ensures
            u@ == with_change(self@, field@, json_of(value), Operation::Prepend),
    {
        self.push(field, value, Operation::Prepend)
    }

    /// Increments `field` by the number `value`.
    pub fn increment(self, field: &str, value: Value) -> (u: Updater)
        ensures
            u@ == with_change(self@, field@, json_of(value), Operation::Increment),
    {
        self.push(field, value, Operation::Increment)
    }

    /// The updates with `operation` on the wire.
    fn listed(&self, operation: Operation) -> (list: Vec<Value>)
        ensures
            jsons_of(list@) == changes_by(self@.changes, operation),
    {
        let mut list: Vec<Value> = Vec::new();
        let mut i: usize = 0;
        while i < self.data.len()
            invariant
                i <= self.data.len(),
                jsons_of(list@) == changes_by(changes_of(self.data@.take(i as int)), operation),
            decreases self.data.len() - i,
        {
            let update = &self.data[i];
            proof {
                let change = Change {
                    field: update.0@,
                    value: json_of(update.1),
                    operation: update.2,
                };
                assert(changes_of(self.data@.take(i + 1)) =~= changes_of(
                    self.data@.take(i as int),
                ).push(change));
                lemma_changes_by_push(changes_of(self.data@.take(i as int)), change, operation);
            }
            if update.2 == operation {
                if operation == Operation::Delete {
                    list.push(from_string(update.0.clone()));
                } else {
                    let mut named = new_object();
                    put_member(&mut named, update.0.clone(), copy_value(&update.1));
                    list.push(from_object(named));
                }
            }
            i = i + 1;
        }
        assert(self.data@.take(i as int) =~= self.data@);
        list
    }

    /// These updates on the wire.
    pub fn serialize(&self) -> (v: Value)
        ensures
            json_of(v) == update_json(self@.changes),
    {
        let mut members = new_object();
        let set = self.listed(Operation::Assign);
        if set.len() > 0 {
            put_member(&mut members, Operation::Assign.as_string(), from_list(set));
        }
        let delete = self.listed(Operation::Delete);
        if delete.len() > 0 {
            put_member(&mut members, Operation::Delete.as_string(), from_list(delete));
        }
        let append = self.listed(Operation::Append);
        if append.len() > 0 {
            put_member(&mut members, Operation::Append.as_string(), from_list(append));
        }
        let prepend = self.listed(Operation::Prepend);
        if prepend.len() > 0 {
            put_member(&mut members, Operation::Prepend.as_string(), from_list(prepend));
        }
        let increment = self.listed(Operation::Increment);
        if increment.len() > 0 {
            put_member(&mut members, Operation::Increment.as_string(), from_list(increment));
        }
        from_object(members)
    }

    /// The request that applies these updates to the record.
    pub fn commit(&self) -> (r: Request<'static>)
        ensures
            r@ == base_wire(
                self@.store,
                Method::Patch,
                item_path(self@.key),
                Some(update_json(self@.changes)),
            ),
    {
        let mut path = String::from_str("/items/");
        path.append(self.key.as_str());
        self.base.request(Method::Patch, path.as_str(), Some(self.serialize()))
    }
}

} // verus!
