//! Records, and builders of update and query payloads that stand on their
//! own, without a base.

use crate::drive::{str_texts, texts};
use crate::json::{
    as_object, copy_object, copy_value, from_i64, from_list, from_object, from_string,
    has_no_member, json_of, jsons_of, members_of, new_object, no_members, put_member, texts_as_json,
    Json, Members, Object,
};
use crate::query::{filter_key, Comparator};
use crate::text::{copy_opt_string, opt_text};
use serde_json::Value;
use vstd::prelude::*;

verus! {

/// A record of a base.
#[derive(Debug)]
pub struct Record {
    /// The key of the record; the service makes one up where it is absent.
    pub key: Option<String>,
    /// The fields of the record: a JSON object.
    pub value: Option<Value>,
    /// The seconds after which the record expires, counted from now.
    pub expires_in: Option<i64>,
    /// The time at which the record expires, in seconds since 1970.
    pub expires_at: Option<i64>,
}

/// What a `Record` holds.
pub struct RecordView {
    pub key: Option<Seq<char>>,
    pub value: Option<Json>,
    pub expires_in: Option<i64>,
    pub expires_at: Option<i64>,
}

impl View for Record {
    type V = RecordView;

    open spec fn view(&self) -> RecordView {
        RecordView {
            key: opt_text(self.key),
            value: match self.value {
                Some(v) => Some(json_of(v)),
                None => None,
            },
            expires_in: self.expires_in,
            expires_at: self.expires_at,
        }
    }
}

/// Whether a record can be written at the time `now`: its value, where it
/// has one, is an object, and the time at which it expires is a number of
/// seconds that fits.
pub open spec fn writable(r: RecordView, now: i64) -> bool {
    &&& r.value matches Some(v) ==> v is Object
    &&& r.expires_in matches Some(within) ==> i64::MIN <= now + within <= i64::MAX
}

/// The time at which a record expires, where it does: `expires_in` counts
/// from `now` and goes before `expires_at`.
pub open spec fn expiry(r: RecordView, now: i64) -> Option<int> {
    match r.expires_in {
        Some(within) => Some(now + within),
        None => match r.expires_at {
            Some(at) => Some(at as int),
            None => None,
        },
    }
}

/// A record on the wire at the time `now`: the fields of its value, then its
/// key under `key`, then the time at which it expires under `__expires`.
pub open spec fn record_json(r: RecordView, now: i64) -> Json {
    let fields = match r.value {
        Some(Json::Object(m)) => m,
        _ => no_members(),
    };
    let keyed = match r.key {
        Some(k) => fields.insert("key"@, Json::Text(k)),
        None => fields,
    };
    Json::Object(
        match expiry(r, now) {
            Some(at) => keyed.insert("__expires"@, Json::Int(at)),
            None => keyed,
        },
    )
}

impl Default for Record {
    fn default() -> (r: Record)
        ensures
            r@ == (RecordView { key: None, value: None, expires_in: None, expires_at: None }),
    {
        Record { key: None, value: None, expires_in: None, expires_at: None }
    }
}

impl Clone for Record {
    fn clone(&self) -> (r: Record)
        ensures
            r@ == self@,
    {
        self.copy()
    }
}

impl Record {
    /// A copy of this record.
    pub fn copy(&self) -> (r: Record)
        ensures
            r@ == self@,
    {
        Record {
            key: copy_opt_string(&self.key),
            value: match &self.value {
                Some(v) => Some(copy_value(v)),
                None => None,
            },
            expires_in: self.expires_in,
            expires_at: self.expires_at,
        }
    }

    /// This record on the wire at the time `now`, at which it can be written.
    pub fn json_at(&self, now: i64) -> (v: Value)
        requires
            writable(self@, now),
        ensures
            json_of(v) == record_json(self@, now),
    {
        let mut data = match &self.value {
            Some(value) => match as_object(value) {
                Some(fields) => copy_object(fields),
                None => new_object(),
            },
            None => new_object(),
        };
        if let Some(key) = &self.key {
            put_member(&mut data, String::from_str("key"), from_string(key.clone()));
        }
        if let Some(within) = self.expires_in {
            put_member(&mut data, String::from_str("__expires"), from_i64(now + within));
        } else if let Some(at) = self.expires_at {
            put_member(&mut data, String::from_str("__expires"), from_i64(at));
        }
        from_object(data)
    }

    /// This record on the wire at the time `now`, in seconds since 1970; the
    /// caller reads the clock. Nothing is given for a record that cannot be
    /// written at that time: one whose value is no object, or whose time to
    /// expire does not fit.
    pub fn json(&self, now: i64) -> (v: Option<Value>)
        ensures
            writable(self@, now) ==> (v matches Some(j) && json_of(j) == record_json(self@, now)),
            !writable(self@, now) ==> v is None,
    {
        if let Some(value) = &self.value {
            if as_object(value).is_none() {
                return None;
            }
        }
        if let Some(within) = self.expires_in {
            if now.checked_add(within).is_none() {
                return None;
            }
        }
        Some(self.json_at(now))
    }
}

/// The updates of one record, by operation.
#[derive(Debug)]
pub struct UpdateBuilder {
    pub key: String,
    set: Object,
    delete: Vec<String>,
    append: Object,
    prepend: Object,
    increment: Object,
}

/// What an `UpdateBuilder` holds.
pub struct Updates {
    pub key: Seq<char>,
    /// The values to set, by field.
    pub assigned: Members,
    /// The fields to delete, in the order in which they were named.
    pub deleted: Seq<Seq<char>>,
    pub appended: Members,
    pub prepended: Members,
    pub incremented: Members,
}

impl View for UpdateBuilder {
    type V = Updates;

    closed spec fn view(&self) -> Updates {
        Updates {
            key: self.key@,
            assigned: members_of(self.set),
            deleted: texts(self.delete@),
            appended: members_of(self.append),
            prepended: members_of(self.prepend),
            incremented: members_of(self.increment),
        }
    }
}

/// The members `m` and, unless `part` is empty, `part` under `name`.
pub open spec fn with_part(m: Members, name: Seq<char>, part: Members) -> Members {
    if part == no_members() {
        m
    } else {
        m.insert(name, Json::Object(part))
    }
}

/// The members `m` and, unless `fields` is empty, the list of `fields` under
/// `delete`.
pub open spec fn with_deleted(m: Members, fields: Seq<Seq<char>>) -> Members {
    if fields.len() == 0 {
        m
    } else {
        m.insert("delete"@, Json::List(texts_as_json(fields)))
    }
}

/// Updates on the wire: an object with a member for each operation that has
/// an update, and none for an operation without.
pub open spec fn updates_json(u: Updates) -> Json {
    Json::Object(
        with_part(
            with_part(
                with_part(
                    with_deleted(with_part(no_members(), "set"@, u.assigned), u.deleted),
                    "append"@,
                    u.appended,
                ),
                "prepend"@,
                u.prepended,
            ),
            "increment"@,
            u.incremented,
        ),
    )
}

impl Default for UpdateBuilder {
    fn default() -> (u: UpdateBuilder)
        ensures
            u@ == (Updates {
                key: Seq::empty(),
                assigned: no_members(),
                deleted: Seq::empty(),
                appended: no_members(),
                prepended: no_members(),
                incremented: no_members(),
            }),
    {
        let u = UpdateBuilder {
            key: String::new(),
            set: new_object(),
            delete: Vec::new(),
            append: new_object(),
            prepend: new_object(),
            increment: new_object(),
        };
        assert(texts(u.delete@) =~= Seq::empty());
        u
    }
}

impl Clone for UpdateBuilder {
    fn clone(&self) -> (copy: UpdateBuilder)
        ensures
            copy@ == self@,
    {
        UpdateBuilder {
            key: self.key.clone(),
            set: copy_object(&self.set),
            delete: self.delete.clone(),
            append: copy_object(&self.append),
            prepend: copy_object(&self.prepend),
            increment: copy_object(&self.increment),
        }
    }
}

impl UpdateBuilder {
    /// The updates of the record `key`: none yet.
    pub fn new(key: &str) -> (u: UpdateBuilder)
        ensures
            u@ == (Updates {
                key: key@,
                assigned: no_members(),
                deleted: Seq::empty(),
                appended: no_members(),
                prepended: no_members(),
                incremented: no_members(),
            }),
    {
        let u = UpdateBuilder {
            key: String::from_str(key),
            set: new_object(),
            delete: Vec::new(),
            append: new_object(),
            prepend: new_object(),
            increment: new_object(),
        };
        assert(texts(u.delete@) =~= Seq::empty());
        u
    }

    /// Sets `field` to `value`.
    pub fn set(&mut self, field: &str, value: Value)
        ensures
            final(self)@ == (Updates {
                assigned: old(self)@.assigned.insert(field@, json_of(value)),
                ..old(self)@
            }),
    {
        put_member(&mut self.set, String::from_str(field), value);
    }

    /// Deletes `fields`.
    pub fn delete(&mut self, fields: Vec<&str>)
        ensures
            final(self)@ == (Updates {
                deleted: old(self)@.deleted + str_texts(fields@),
                ..old(self)@
            }),
    {
        let mut i: usize = 0;
        while i < fields.len()
            invariant
                i <= fields.len(),
                self.key == old(self).key,
                self.set == old(self).set,
                self.append == old(self).append,
                self.prepend == old(self).prepend,
                self.increment == old(self).increment,
                texts(self.delete@) == texts(old(self).delete@) + str_texts(fields@.take(i as int)),
            decreases fields.len() - i,
        {
            let ghost before = self.delete@;
            self.delete.push(String::from_str(fields[i]));
            assert(texts(self.delete@) =~= texts(before).push(fields@[i as int]@));
            i = i + 1;
        }
        assert(fields@.take(i as int) =~= fields@);
    }

    /// Appends `value` to `field`.
    pub fn append(&mut self, field: &str, value: Value)
        ensures
            final(self)@ == (Updates {
                appended: old(self)@.appended.insert(field@, json_of(value)),
                ..old(self)@
            }),
    {
        put_member(&mut self.append, String::from_str(field), value);
    }

    /// Prepends `value` to `field`.
    pub fn prepend(&mut self, field: &str, value: Value)
        ensures
            final(self)@ == (Updates {
                prepended: old(self)@.prepended.insert(field@, json_of(value)),
                ..old(self)@
            }),
    {
        put_member(&mut self.prepend, String::from_str(field), value);
    }

    /// Increments `field` by `value`.
    pub fn increment(&mut self, field: &str, value: i64)
        ensures
            final(self)@ == (Updates {
                incremented: old(self)@.incremented.insert(field@, Json::Int(value as int)),
                ..old(self)@
            }),
    {
        put_member(&mut self.increment, String::from_str(field), from_i64(value));
    }

    /// These updates on the wire.
    pub fn json(&self) -> (v: Value)
        ensures
            json_of(v) == updates_json(self@),
    {
        let mut updates = new_object();
        if !has_no_member(&self.set) {
            put_member(&mut updates, String::from_str("set"), from_object(copy_object(&self.set)));
        }
        if self.delete.len() > 0 {
            let mut fields: Vec<Value> = Vec::new();
            let mut i: usize = 0;
            while i < self.delete.len()
                invariant
                    i <= self.delete.len(),
                    fields.len() == i,
                    forall|j: int|
                        0 <= j < i ==> json_of(#[trigger] fields@[j]) == Json::Text(
                            self.delete@[j]@,
                        ),
                decreases self.delete.len() - i,
            {
                fields.push(from_string(self.delete[i].clone()));
                i = i + 1;
            }
            assert(jsons_of(fields@) =~= texts_as_json(texts(self.delete@)));
            put_member(&mut updates, String::from_str("delete"), from_list(fields));
        }
        if !has_no_member(&self.append) {
            put_member(
                &mut updates,
                String::from_str("append"),
                from_object(copy_object(&self.append)),
            );
        }
        if !has_no_member(&self.prepend) {
            put_member(
                &mut updates,
                String::from_str("prepend"),
                from_object(copy_object(&self.prepend)),
            );
        }
        if !has_no_member(&self.increment) {
            put_member(
                &mut updates,
                String::from_str("increment"),
                from_object(copy_object(&self.increment)),
            );
        }
        from_object(updates)
    }
}

/// A query payload that stands on its own.
#[derive(Debug)]
pub struct QueryBuilder {
    /// The filters of the group in progress.
    pub map: Option<Object>,
    /// The page size.
    pub limit: Option<i64>,
    /// The cursor after which results are wanted.
    pub last: Option<String>,
    ors: Option<Vec<Object>>,
}

/// What a `QueryBuilder` holds.
pub struct Criteria {
    pub current: Option<Members>,
    pub limit: Option<i64>,
    pub last: Option<Seq<char>>,
    /// The groups that were added as alternatives.
    pub alternatives: Option<Seq<Members>>,
}

/// The members of each object of a list.
pub open spec fn groups_of(groups: Seq<Object>) -> Seq<Members> {
    groups.map_values(|m: Object| members_of(m))
}

/// Each group as a JSON object.
pub open spec fn as_objects(groups: Seq<Members>) -> Seq<Json> {
    groups.map_values(|m: Members| Json::Object(m))
}

impl View for QueryBuilder {
    type V = Criteria;

    closed spec fn view(&self) -> Criteria {
        Criteria {
            current: match self.map {
                Some(m) => Some(members_of(m)),
                None => None,
            },
            limit: self.limit,
            last: opt_text(self.last),
            alternatives: match self.ors {
                Some(groups) => Some(groups_of(groups@)),
                None => None,
            },
        }
    }
}

/// The groups of a payload on the wire: the alternatives in their order, then
/// the group in progress where there is one.
pub open spec fn payload_groups(p: Criteria) -> Seq<Json> {
    match p.alternatives {
        Some(groups) => match p.current {
            Some(current) => as_objects(groups).push(Json::Object(current)),
            None => as_objects(groups),
        },
        None => seq![Json::Object(p.current->0)],
    }
}

/// A payload on the wire: the page size and the cursor where they are set,
/// and the groups.
pub open spec fn payload_json(p: Criteria) -> Json {
    let limited = match p.limit {
        Some(n) => no_members().insert("limit"@, Json::Int(n as int)),
        None => no_members(),
    };
    let continued = match p.last {
        Some(last) => limited.insert("last"@, Json::Text(last)),
        None => limited,
    };
    Json::Object(continued.insert("query"@, Json::List(payload_groups(p))))
}

/// All groups of a payload that has a group in progress: the alternatives
/// that it has gathered, in their order, and then the group in progress.
pub open spec fn all_groups(p: Criteria) -> Seq<Members> {
    (match p.alternatives {
        Some(groups) => groups,
        None => Seq::empty(),
    }).push(p.current->0)
}

/// The payload `p` with all groups of `other` added to its alternatives. The
/// group that `p` has in progress stays as it is.
pub open spec fn united(p: Criteria, other: Criteria) -> Criteria {
    Criteria {
        current: p.current,
        limit: p.limit,
        last: p.last,
        alternatives: Some(p.alternatives->0 + all_groups(other)),
    }
}

/// A union of payloads keeps every group. On the wire the united payload
/// lists the alternatives of the first payload, then the alternatives of the
/// second, then the group that the second had in progress, and last the group
/// that the first has in progress: as many groups as the first had
/// alternatives, the second had on the wire, and one.
pub proof fn lemma_do_or_keeps_groups(p: Criteria, other: Criteria)
    requires
        p.alternatives is Some,
        p.current is Some,
        other.alternatives is Some,
        other.current is Some,
    ensures
        payload_groups(united(p, other)) == as_objects(p.alternatives->0) + as_objects(
            other.alternatives->0,
        ) + seq![Json::Object(other.current->0), Json::Object(p.current->0)],
        payload_groups(united(p, other)).len() == p.alternatives->0.len() + payload_groups(
            other,
        ).len() + 1,
        payload_groups(united(p, other)).len() == p.alternatives->0.len()
            + other.alternatives->0.len() + 2,
        payload_json(united(p, other)) matches Json::Object(members) && members.named["query"@]
            == Json::List(payload_groups(united(p, other))),
{
    assert(payload_groups(united(p, other)) =~= as_objects(p.alternatives->0) + as_objects(
        other.alternatives->0,
    ) + seq![Json::Object(other.current->0), Json::Object(p.current->0)]);
}

/// The payload `p` with the filter under `key` set to `value`.
pub open spec fn with_filter(p: Criteria, key: Seq<char>, value: Json) -> Criteria {
    Criteria {
        current: Some(p.current->0.insert(key, value)),
        limit: p.limit,
        last: p.last,
        alternatives: p.alternatives,
    }
}

impl Default for QueryBuilder {
    fn default() -> (q: QueryBuilder)
        ensures
            q@ == (Criteria { current: None, limit: None, last: None, alternatives: None }),
    {
        QueryBuilder { map: None, limit: None, last: None, ors: None }
    }
}

impl Clone for QueryBuilder {
    fn clone(&self) -> (copy: QueryBuilder)
        ensures
            copy@ == self@,
    {
        QueryBuilder {
            map: match &self.map {
                Some(m) => Some(copy_object(m)),
                None => None,
            },
            limit: self.limit,
            last: copy_opt_string(&self.last),
            ors: match &self.ors {
                Some(groups) => Some(copy_objects(groups)),
                None => None,
            },
        }
    }
}

/// A copy of each object of `groups`, in order.
fn copy_objects(groups: &Vec<Object>) -> (copy: Vec<Object>)
    ensures
        groups_of(copy@) == groups_of(groups@),
{
    let mut copy: Vec<Object> = Vec::new();
    let mut i: usize = 0;
    while i < groups.len()
        invariant
            i <= groups.len(),
            copy.len() == i,
            forall|j: int| 0 <= j < i ==> members_of(#[trigger] copy@[j]) == members_of(groups@[j]),
        decreases groups.len() - i,
    {
        copy.push(copy_object(&groups[i]));
        i = i + 1;
    }
    copy
}

impl QueryBuilder {
    /// A payload with a page size of 1000 and an empty group.
    pub fn new() -> (q: QueryBuilder)
        ensures
            q@ == (Criteria {
                current: Some(no_members()),
                limit: Some(1000),
                last: None,
                alternatives: Some(Seq::empty()),
            }),
    {
        let q = QueryBuilder {
            map: Some(new_object()),
            limit: Some(1000),
            last: None,
            ors: Some(Vec::new()),
        };
        assert(groups_of(q.ors->0@) =~= Seq::empty());
        q
    }

    /// Adds all groups of `another` as alternatives: the alternatives that
    /// `another` has gathered, in their order, and then its group in progress.
    /// The group in progress of this payload stays as it is.
    pub fn do_or(&mut self, another: QueryBuilder)
        requires
            old(self)@.alternatives is Some,
            another@.current is Some,
        ensures
            final(self)@ == united(old(self)@, another@),
    {
        let QueryBuilder { map, limit: _, last: _, ors } = another;
        let mut groups = self.ors.take().unwrap();
        let ghost before = groups@;
        if let Some(gathered) = ors {
            let mut gathered = gathered;
            groups.append(&mut gathered);
        }
        groups.push(map.unwrap());
        assert(groups_of(groups@) =~= groups_of(before) + all_groups(another@));
        self.ors = Some(groups);
    }

    /// Sets the filter that compares `field` with `value` by `comparator`.
    pub fn set(&mut self, comparator: Comparator, field: &str, value: Value)
        requires
            old(self)@.current is Some,
        ensures
            final(self)@ == with_filter(old(self)@, filter_key(comparator, field@), json_of(value)),
    {
        let mut group = self.map.take().unwrap();
        put_member(&mut group, comparator.key(field), value);
        self.map = Some(group);
    }

    /// Wants `field` equal to `value`.
    pub fn equals(&mut self, field: &str, value: Value)
        requires
            old(self)@.current is Some,
        ensures
            final(self)@ == with_filter(
                old(self)@,
                filter_key(Comparator::Equals, field@),
                json_of(value),
            ),
    {
        self.set(Comparator::Equals, field, value)
    }

    /// Wants `field` different from `value`.
    pub fn not_equals(&mut self, field: &str, value: Value)
        requires
            old(self)@.current is Some,
        ensures
            final(self)@ == with_filter(
                old(self)@,
                filter_key(Comparator::NotEquals, field@),
                json_of(value),
            ),
    {
        self.set(Comparator::NotEquals, field, value)
    }

    /// Wants `field` greater than `value`.
    pub fn greater_than(&mut self, field: &str, value: Value)
        requires
            old(self)@.current is Some,
        ensures
            final(self)@ == with_filter(
                old(self)@,
                filter_key(Comparator::GreaterThan, field@),
                json_of(value),
            ),
    {
        self.set(Comparator::GreaterThan, field, value)
    }

    /// Wants `field` greater than or equal to `value`.
    pub fn greater_than_or_equal(&mut self, field: &str, value: Value)
        requires
            old(self)@.current is Some,
        ensures
            final(self)@ == with_filter(
                old(self)@,
                filter_key(Comparator::GreaterThanOrEquals, field@),
                json_of(value),
            ),
    {
        self.set(Comparator::GreaterThanOrEquals, field, value)
    }

    /// Wants `field` less than `value`.
    pub fn less_than(&mut self, field: &str, value: Value)
        requires
            old(self)@.current is Some,
        ensures
            final(self)@ == with_filter(
                old(self)@,
                filter_key(Comparator::LessThan, field@),
                json_of(value),
            ),
    {
        self.set(Comparator::LessThan, field, value)
    }

    /// Wants `field` less than or equal to `value`.
    pub fn less_than_or_equal(&mut self, field: &str, value: Value)
        requires
            old(self)@.current is Some,
        ensures
            final(self)@ == with_filter(
                old(self)@,
                filter_key(Comparator::LessThanOrEquals, field@),
                json_of(value),
            ),
    {
        self.set(Comparator::LessThanOrEquals, field, value)
    }

    /// Wants `field` to start with `value`.
    pub fn prefix(&mut self, field: &str, value: &str)
        requires
            old(self)@.current is Some,
        ensures
            final(self)@ == with_filter(
                old(self)@,
                filter_key(Comparator::Prefix, field@),
                Json::Text(value@),
            ),
    {
        self.set(Comparator::Prefix, field, from_string(String::from_str(value)))
    }

    /// Wants `field` to contain `value`.
    pub fn contains(&mut self, field: &str, value: &str)
        requires
            old(self)@.current is Some,
        ensures
            final(self)@ == with_filter(
                old(self)@,
                filter_key(Comparator::Contains, field@),
                Json::Text(value@),
            ),
    {
        self.set(Comparator::Contains, field, from_string(String::from_str(value)))
    }

    /// Wants `field` between `start` and `end`, both included.
    pub fn range(&mut self, field: &str, start: Value, end: Value)
        requires
            old(self)@.current is Some,
        ensures
            final(self)@ == with_filter(
                old(self)@,
                filter_key(Comparator::Range, field@),
                Json::List(seq![json_of(start), json_of(end)]),
            ),
    {
        let mut bounds: Vec<Value> = Vec::new();
        bounds.push(start);
        bounds.push(end);
        assert(jsons_of(bounds@) =~= seq![json_of(start), json_of(end)]);
        self.set(Comparator::Range, field, from_list(bounds))
    }

    /// Wants `field` not to contain `value`.
    pub fn not_contains(&mut self, field: &str, value: &str)
        requires
            old(self)@.current is Some,
        ensures
            final(self)@ == with_filter(
                old(self)@,
                filter_key(Comparator::NotContains, field@),
                Json::Text(value@),
            ),
    {
        self.set(Comparator::NotContains, field, from_string(String::from_str(value)))
    }

    /// This payload on the wire.
    pub fn json(&self) -> (v: Value)
        requires
            self@.alternatives is None ==> self@.current is Some,
        ensures
            json_of(v) == payload_json(self@),
    {
        let mut data = new_object();
        if let Some(limit) = self.limit {
            put_member(&mut data, String::from_str("limit"), from_i64(limit));
        }
        if let Some(last) = &self.last {
            put_member(&mut data, String::from_str("last"), from_string(last.clone()));
        }
        let mut groups: Vec<Value> = Vec::new();
        match &self.ors {
            Some(ors) => {
                let mut i: usize = 0;
                while i < ors.len()
                    invariant
                        i <= ors.len(),
                        groups.len() == i,
                        forall|j: int|
                            0 <= j < i ==> json_of(#[trigger] groups@[j]) == Json::Object(
                                members_of(ors@[j]),
                            ),
                    decreases ors.len() - i,
                {
                    groups.push(from_object(copy_object(&ors[i])));
                    i = i + 1;
                }
                if let Some(map) = &self.map {
                    groups.push(from_object(copy_object(map)));
                }
            },
            None => {
                match &self.map {
                    Some(map) => {
                        groups.push(from_object(copy_object(map)));
                    },
                    None => {},
                }
            },
        }
        assert(jsons_of(groups@) =~= payload_groups(self@));
        put_member(&mut data, String::from_str("query"), from_list(groups));
        from_object(data)
    }
}

} // verus!
