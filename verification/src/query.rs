//! Queries on a base.
//!
//! A query is a disjunction of groups, and a group a conjunction of filters.
//! A filter is kept under a key made of its field and its comparator, so a
//! group holds one filter for each key: setting a key again replaces its
//! value, and the order in which different keys are set does not matter.

use crate::base::{base_wire, Base};
use crate::errors::{DetaError, Failure};
use crate::json::{
    copy_object, copy_values, from_list, from_object, from_string, from_u16, json_of, jsons_of,
    lemma_insert_lists_once, listed_once, members_of, new_object, no_members, put_member, Json,
    Members, Object,
};
use crate::request::{Method, Request, Wire};
use crate::text::{copy_opt_string, opt_text};
use crate::Store;
use serde_json::Value;
use vstd::prelude::*;

verus! {

/// The page size that a query asks for where none was set.
pub const DEFAULT_LIMIT: u16 = 1000;

/// Where a page of results ends.
#[derive(Debug)]
pub struct Paging {
    /// The number of items in the page.
    pub size: u16,
    /// The cursor for the next page; empty where there is none.
    pub last: String,
}

/// What a `Paging` holds.
pub struct Cursor {
    pub size: u16,
    pub last: Seq<char>,
}

impl View for Paging {
    type V = Cursor;

    open spec fn view(&self) -> Cursor {
        Cursor { size: self.size, last: self.last@ }
    }
}

/// A page of results.
#[derive(Debug)]
pub struct QueryResult {
    pub paging: Paging,
    pub items: Vec<Value>,
}

/// What a `QueryResult` holds.
pub struct Page {
    pub paging: Cursor,
    pub items: Seq<Json>,
}

impl View for QueryResult {
    type V = Page;

    open spec fn view(&self) -> Page {
        Page { paging: self.paging@, items: jsons_of(self.items@) }
    }
}

/// How a filter compares a field with its value.
#[derive(Debug, Clone, Copy, PartialEq, Eq, Structural)]
pub enum Comparator {
    Equals,
    NotEquals,
    GreaterThan,
    GreaterThanOrEquals,
    LessThan,
    LessThanOrEquals,
    /// Between the two bounds of the value, both included.
    Range,
    Contains,
    NotContains,
    /// Starting with the value.
    Prefix,
}

/// The name of a comparator in a key; `Equals` has none.
pub open spec fn operator(comparator: Comparator) -> Seq<char> {
    match comparator {
        Comparator::Equals => Seq::empty(),
        Comparator::NotEquals => "ne"@,
        Comparator::GreaterThan => "gt"@,
        Comparator::GreaterThanOrEquals => "gte"@,
        Comparator::LessThan => "lt"@,
        Comparator::LessThanOrEquals => "lte"@,
        Comparator::Range => "range"@,
        Comparator::Contains => "contains"@,
        Comparator::NotContains => "not_contains"@,
        Comparator::Prefix => "pfx"@,
    }
}

/// The key of a filter: the bare field for `Equals`, and for any other
/// comparator the field, a question mark and the comparator's name.
pub open spec fn filter_key(comparator: Comparator, field: Seq<char>) -> Seq<char> {
    if comparator == Comparator::Equals {
        field
    } else {
        field + "?"@ + operator(comparator)
    }
}

impl Comparator {
    /// The name of this comparator in a key.
    pub fn operator(&self) -> (name: &'static str)
        ensures
            name@ == operator(*self),
    {
        let name = match self {
            Comparator::Equals => "",
            Comparator::NotEquals => "ne",
            Comparator::GreaterThan => "gt",
            Comparator::GreaterThanOrEquals => "gte",
            Comparator::LessThan => "lt",
            Comparator::LessThanOrEquals => "lte",
            Comparator::Range => "range",
            Comparator::Contains => "contains",
            Comparator::NotContains => "not_contains",
            Comparator::Prefix => "pfx",
        };
        proof {
            reveal_strlit("");
        }
        name
    }

    /// The key of the filter that compares `field` in this way.
    pub fn key(&self, field: &str) -> (key: String)
        ensures
            key@ == filter_key(*self, field@),
    {
        let mut key = String::from_str(field);
        match self {
            Comparator::Equals => {},
            _ => {
                key.append("?");
                key.append(self.operator());
            },
        }
        key
    }
}

/// A query on a base.
#[derive(Debug)]
pub struct Query {
    base: Base,
    limit: Option<u16>,
    last: Option<String>,
    sort: Option<bool>,
    container: Vec<Value>,
    map: Object,
}

/// What a `Query` holds.
pub struct QueryView {
    pub store: Store,
    /// The page size, where one was set.
    pub limit: Option<u16>,
    /// The cursor after which results are wanted.
    pub last: Option<Seq<char>>,
    /// Whether results come in descending order.
    pub sort: Option<bool>,
    /// The groups that are complete.
    pub groups: Seq<Json>,
    /// The filters of the group in progress, by key.
    pub current: Members,
}

impl View for Query {
    type V = QueryView;

    closed spec fn view(&self) -> QueryView {
        QueryView {
            store: self.base@,
            limit: self.limit,
            last: opt_text(self.last),
            sort: self.sort,
            groups: jsons_of(self.container@),
            current: members_of(self.map),
        }
    }
}

/// The query on `store` that nothing was set of yet.
pub open spec fn blank(store: Store) -> QueryView {
    QueryView {
        store,
        limit: None,
        last: None,
        sort: Some(false),
        groups: Seq::empty(),
        current: no_members(),
    }
}

/// The groups of a query on the wire: the complete ones in their order, then
/// the group in progress, also where it is empty.
pub open spec fn wire_groups(q: QueryView) -> Seq<Json> {
    q.groups.push(Json::Object(q.current))
}

/// The page size of a query as a member: 1000 where none was set.
pub open spec fn limit_member(q: QueryView) -> Members {
    no_members().insert(
        "limit"@,
        Json::Int(
            match q.limit {
                Some(n) => n as int,
                None => DEFAULT_LIMIT as int,
            },
        ),
    )
}

/// A query on the wire. The cursor is sent where one is set, and the order
/// only where it is descending.
pub open spec fn query_json(q: QueryView) -> Json {
    let limited = limit_member(q);
    let continued = match q.last {
        Some(last) => limited.insert("last"@, Json::Text(last)),
        None => limited,
    };
    let sorted = if q.sort == Some(true) {
        continued.insert("sort"@, Json::Text("desc"@))
    } else {
        continued
    };
    Json::Object(sorted.insert("query"@, Json::List(wire_groups(q))))
}

/// The request that runs a query.
pub open spec fn run_wire(q: QueryView) -> Wire {
    base_wire(q.store, Method::Post, "/query"@, Some(query_json(q)))
}

/// The query `q` with the filter under `key` set to `value`.
pub open spec fn with_filter(q: QueryView, key: Seq<char>, value: Json) -> QueryView {
    QueryView {
        store: q.store,
        limit: q.limit,
        last: q.last,
        sort: q.sort,
        groups: q.groups,
        current: q.current.insert(key, value),
    }
}

/// The query `q` with `group` added to its complete groups.
pub open spec fn with_group(q: QueryView, group: Json) -> QueryView {
    QueryView {
        store: q.store,
        limit: q.limit,
        last: q.last,
        sort: q.sort,
        groups: q.groups.push(group),
        current: q.current,
    }
}

/// The query `q` with all groups of `other` added to its complete groups:
/// the complete groups of `other`, then the group that `other` had in
/// progress. The group that `q` has in progress stays as it is.
pub open spec fn united(q: QueryView, other: QueryView) -> QueryView {
    QueryView {
        store: q.store,
        limit: q.limit,
        last: q.last,
        sort: q.sort,
        groups: q.groups + wire_groups(other),
        current: q.current,
    }
}

/// The query `q` continued after the cursor `last`.
pub open spec fn continued(q: QueryView, last: Seq<char>) -> QueryView {
    QueryView {
        store: q.store,
        limit: q.limit,
        last: Some(last),
        sort: q.sort,
        groups: q.groups,
        current: q.current,
    }
}

/// A filter: a field, how it is compared, and the value it is compared
/// with.
pub struct Filter {
    pub comparator: Comparator,
    pub field: Seq<char>,
    pub value: Json,
}

/// The key under which filter `i` of `filters` is kept.
pub open spec fn key_at(filters: Seq<Filter>, i: int) -> Seq<char> {
    filter_key(filters[i].comparator, filters[i].field)
}

/// Whether no filter that comes after filter `i` has its key.
pub open spec fn last_of_its_key(filters: Seq<Filter>, i: int) -> bool {
    forall|j: int| i < j < filters.len() ==> key_at(filters, j) != key_at(filters, i)
}

/// Whether `key` is the key of one of `filters`.
pub open spec fn is_key_of(filters: Seq<Filter>, key: Seq<char>) -> bool {
    exists|i: int| 0 <= i < filters.len() && key_at(filters, i) == key
}

/// The query `q` after `filters` were set one after another.
pub open spec fn after_sets(q: QueryView, filters: Seq<Filter>) -> QueryView
    decreases filters.len(),
{
    if filters.len() == 0 {
        q
    } else {
        with_filter(
            after_sets(q, filters.drop_last()),
            key_at(filters, filters.len() - 1),
            filters.last().value,
        )
    }
}

/// The items of `pages`, in the order of the pages.
pub open spec fn gathered(pages: Seq<Page>) -> Seq<Json>
    decreases pages.len(),
{
    if pages.len() == 0 {
        Seq::empty()
    } else {
        pages.first().items + gathered(pages.drop_first())
    }
}

/// The number of items of `pages`.
pub open spec fn total_items(pages: Seq<Page>) -> nat
    decreases pages.len(),
{
    if pages.len() == 0 {
        0
    } else {
        pages.first().items.len() + total_items(pages.drop_first())
    }
}

/// The step that is reached when `pages` come as the replies to the
/// requests of `walk`, one after another. Pages that come after the walk has
/// ended are not looked at.
pub open spec fn after_pages(walk: WalkView, pages: Seq<Page>) -> WalkStepView
    decreases pages.len(),
{
    let step = walk_step(walk, Ok(pages.first()));
    if pages.len() <= 1 {
        step
    } else {
        match step {
            WalkStepView::Next(next, _) => after_pages(next, pages.drop_first()),
            _ => step,
        }
    }
}

/// Whether every page of `pages` but the last gives a cursor.
pub open spec fn all_continue(pages: Seq<Page>) -> bool {
    forall|i: int| 0 <= i < pages.len() - 1 ==> pages[i].paging.last.len() > 0
}

/// The key of a filter is the bare field for `Equals`. For every other
/// comparator it is the field, a question mark and the name of the
/// comparator, which is one of nine.
pub proof fn lemma_key_shape(comparator: Comparator, field: Seq<char>)
    ensures
        comparator == Comparator::Equals ==> filter_key(comparator, field) == field,
        comparator != Comparator::Equals ==> filter_key(comparator, field) == field + "?"@
            + operator(comparator),
        comparator != Comparator::Equals ==> {
            ||| operator(comparator) == "ne"@
            ||| operator(comparator) == "gt"@
            ||| operator(comparator) == "gte"@
            ||| operator(comparator) == "lt"@
            ||| operator(comparator) == "lte"@
            ||| operator(comparator) == "range"@
            ||| operator(comparator) == "contains"@
            ||| operator(comparator) == "not_contains"@
            ||| operator(comparator) == "pfx"@
        },
        comparator != Comparator::Equals ==> filter_key(comparator, field).len() > field.len() + 2,
{
    reveal_strlit("?");
    reveal_strlit("ne");
    reveal_strlit("gt");
    reveal_strlit("gte");
    reveal_strlit("lt");
    reveal_strlit("lte");
    reveal_strlit("range");
    reveal_strlit("contains");
    reveal_strlit("not_contains");
    reveal_strlit("pfx");
}

/// Different comparators have different names.
pub proof fn lemma_operators_differ(a: Comparator, b: Comparator)
    requires
        operator(a) == operator(b),
    ensures
        a == b,
{
    reveal_strlit("ne");
    reveal_strlit("gt");
    reveal_strlit("gte");
    reveal_strlit("lt");
    reveal_strlit("lte");
    reveal_strlit("range");
    reveal_strlit("contains");
    reveal_strlit("not_contains");
    reveal_strlit("pfx");
    let name = operator(a);
    if name.len() > 0 {
        assert(name[0] == operator(b)[0]);
    }
}

/// A key tells its filter. For fields that hold no question mark, two
/// filters with the same key have the same field and the same comparator.
pub proof fn lemma_key_tells_filter(
    a: Comparator,
    field_a: Seq<char>,
    b: Comparator,
    field_b: Seq<char>,
)
    requires
        !field_a.contains('?'),
        !field_b.contains('?'),
        filter_key(a, field_a) == filter_key(b, field_b),
    ensures
        a == b,
        field_a == field_b,
{
    reveal_strlit("?");
    let key = filter_key(a, field_a);
    let n = field_a.len() as int;
    let m = field_b.len() as int;
    if a != Comparator::Equals {
        assert(key[n] == '?');
    }
    if b != Comparator::Equals {
        assert(key[m] == '?');
    }
    if a != Comparator::Equals && b != Comparator::Equals && n == m {
        assert(field_a =~= key.take(n));
        assert(operator(a) =~= key.skip(n + 1));
        assert(operator(b) =~= key.skip(n + 1));
        lemma_operators_differ(a, b);
    }
}

/// The last set wins. After any sequence of sets the group in progress still
/// lists each of its keys once. It holds a filter under a key if and only if
/// it held one before or one of the sets had that key; under the key of a set
/// that no later set repeats it holds the value of that set; and under a key
/// that no set had it holds what it held before. Nothing else of the query
/// changes.
pub proof fn lemma_last_set_wins(q: QueryView, filters: Seq<Filter>)
    ensures
        after_sets(q, filters) == (QueryView { current: after_sets(q, filters).current, ..q }),
        listed_once(q.current) ==> listed_once(after_sets(q, filters).current),
        forall|key: Seq<char>|
            #[trigger] after_sets(q, filters).current.named.contains_key(key)
                <==> q.current.named.contains_key(key) || is_key_of(filters, key),
        forall|i: int|
            0 <= i < filters.len() && last_of_its_key(filters, i) ==> after_sets(
                q,
                filters,
            ).current.named[#[trigger] key_at(filters, i)] == filters[i].value,
        forall|key: Seq<char>|
            q.current.named.contains_key(key) && !is_key_of(filters, key) ==> #[trigger] after_sets(
                q,
                filters,
            ).current.named[key] == q.current.named[key],
    decreases filters.len(),
{
    if filters.len() > 0 {
        let before = filters.drop_last();
        let n = filters.len() - 1;
        lemma_last_set_wins(q, before);
        if listed_once(q.current) {
            lemma_insert_lists_once(
                after_sets(q, before).current,
                key_at(filters, n),
                filters.last().value,
            );
        }
        // The filters before the last one have in `before` the keys that they have in `filters`.
        assert forall|i: int| 0 <= i < n implies key_at(before, i) == key_at(filters, i) by {}
        let set = after_sets(q, filters).current.named;
        assert forall|key: Seq<char>| #[trigger]
            set.contains_key(key) <==> q.current.named.contains_key(key) || is_key_of(
                filters,
                key,
            ) by {
            if is_key_of(filters, key) {
                let i = choose|i: int| 0 <= i < filters.len() && key_at(filters, i) == key;
                assert(i < n ==> key_at(before, i) == key);
            }
            if is_key_of(before, key) {
                let i = choose|i: int| 0 <= i < before.len() && key_at(before, i) == key;
                assert(key_at(filters, i) == key);
            }
        }
        assert forall|i: int|
            0 <= i < filters.len() && last_of_its_key(filters, i) implies set[#[trigger] key_at(
                filters,
                i,
            )] == filters[i].value by {
            if i < n {
                assert(key_at(filters, n) != key_at(filters, i));
                assert(last_of_its_key(before, i)) by {
                    assert forall|j: int| i < j < before.len() implies key_at(before, j) != key_at(
                        before,
                        i,
                    ) by {
                        assert(key_at(filters, j) != key_at(filters, i));
                    }
                }
            }
        }
        assert forall|key: Seq<char>|
            q.current.named.contains_key(key) && !is_key_of(
                filters,
                key,
            ) implies #[trigger] set[key] == q.current.named[key] by {
            assert(key != key_at(filters, n));
            if is_key_of(before, key) {
                let i = choose|i: int| 0 <= i < before.len() && key_at(before, i) == key;
                assert(key_at(filters, i) == key);
            }
        }
    }
}

/// The keys of `filters`, in their order.
pub open spec fn keys_of(filters: Seq<Filter>) -> Seq<Seq<char>> {
    Seq::new(filters.len(), |i: int| key_at(filters, i))
}

/// One filter for each key. Where the keys of `filters` differ from each
/// other and the group in progress was empty, it holds as many filters after
/// the sets as there were sets, and lists their keys in the order of the
/// sets.
pub proof fn lemma_distinct_keys_counted(q: QueryView, filters: Seq<Filter>)
    requires
        q.current == no_members(),
        forall|i: int, j: int|
            0 <= i < j < filters.len() ==> key_at(filters, i) != key_at(filters, j),
    ensures
        after_sets(q, filters).current.named.dom().finite(),
        after_sets(q, filters).current.named.dom().len() == filters.len(),
        after_sets(q, filters).current.order == keys_of(filters),
    decreases filters.len(),
{
    if filters.len() > 0 {
        let before = filters.drop_last();
        let n = filters.len() - 1;
        assert forall|i: int, j: int| 0 <= i < j < before.len() implies key_at(before, i) != key_at(
            before,
            j,
        ) by {
            assert(key_at(filters, i) != key_at(filters, j));
        }
        lemma_distinct_keys_counted(q, before);
        lemma_last_set_wins(q, before);
        // The key of the last filter is new to the group.
        let key = key_at(filters, n);
        if is_key_of(before, key) {
            let i = choose|i: int| 0 <= i < before.len() && key_at(before, i) == key;
            assert(key_at(filters, i) == key);
        }
        assert(keys_of(before).push(key) =~= keys_of(filters));
    }
}

/// One entry for each filter. Where no field holds a question mark and no
/// two of `filters` have both the same field and the same comparator, a
/// group that was empty holds after the sets as many entries as there were
/// sets, and under the key of each filter the value of that filter.
pub proof fn lemma_one_entry_per_filter(q: QueryView, filters: Seq<Filter>)
    requires
        q.current == no_members(),
        forall|i: int| 0 <= i < filters.len() ==> !(#[trigger] filters[i]).field.contains('?'),
        forall|i: int, j: int|
            0 <= i < j < filters.len() ==> filters[i].comparator != filters[j].comparator
                || filters[i].field != filters[j].field,
    ensures
        after_sets(q, filters).current.named.dom().finite(),
        after_sets(q, filters).current.named.dom().len() == filters.len(),
        after_sets(q, filters).current.order == keys_of(filters),
        forall|i: int|
            0 <= i < filters.len() ==> after_sets(q, filters).current.named.contains_key(
                #[trigger] key_at(filters, i),
            ) && after_sets(q, filters).current.named[key_at(filters, i)] == filters[i].value,
{
    assert forall|i: int, j: int| 0 <= i < j < filters.len() implies key_at(filters, i) != key_at(
        filters,
        j,
    ) by {
        if key_at(filters, i) == key_at(filters, j) {
            lemma_key_tells_filter(
                filters[i].comparator,
                filters[i].field,
                filters[j].comparator,
                filters[j].field,
            );
        }
    }
    lemma_distinct_keys_counted(q, filters);
    lemma_last_set_wins(q, filters);
    let after = after_sets(q, filters).current.named;
    assert forall|i: int| 0 <= i < filters.len() implies after.contains_key(
        #[trigger] key_at(filters, i),
    ) && after[key_at(filters, i)] == filters[i].value by {
        assert(is_key_of(filters, key_at(filters, i)));
        assert(last_of_its_key(filters, i));
    }
}

/// The order of two sets with different keys does not matter.
pub proof fn lemma_sets_commute(q: QueryView, a: Filter, b: Filter)
    requires
        filter_key(a.comparator, a.field) != filter_key(b.comparator, b.field),
    ensures
        after_sets(q, seq![a, b]).current.named == after_sets(q, seq![b, a]).current.named,
{
    reveal_with_fuel(after_sets, 3);
    assert(after_sets(q, seq![a, b]).current.named =~= after_sets(q, seq![b, a]).current.named);
}

/// The members of a query on the wire come in one order: the page size, the
/// cursor where one is set, the order where it is descending, and the groups.
pub proof fn lemma_query_members_in_order(q: QueryView)
    ensures
        query_json(q) matches Json::Object(members) && members.order == seq!["limit"@] + (
        if q.last is Some {
            seq!["last"@]
        } else {
            Seq::empty()
        }) + (if q.sort == Some(true) {
            seq!["sort"@]
        } else {
            Seq::empty()
        }) + seq!["query"@] && members.named["query"@] == Json::List(wire_groups(q)),
{
    reveal_strlit("limit");
    reveal_strlit("last");
    reveal_strlit("sort");
    reveal_strlit("query");
    // The four names differ, so each insertion adds a member at the end.
    assert("limit"@.len() == 5 && "last"@.len() == 4 && "sort"@.len() == 4 && "query"@.len() == 5);
    assert("limit"@[0] != "query"@[0]);
    assert("last"@[0] != "sort"@[0]);
}

/// A union keeps every group. On the wire the united query lists the
/// complete groups of the first query, then the complete groups of the
/// second, then the group that the second had in progress, and last the
/// group that the first has in progress: as many groups as the first had
/// complete, the second had on the wire, and one.
pub proof fn lemma_union_keeps_groups(a: QueryView, b: QueryView)
    ensures
        wire_groups(united(a, b)) == a.groups + b.groups + seq![
            Json::Object(b.current),
            Json::Object(a.current),
        ],
        wire_groups(united(a, b)).len() == a.groups.len() + wire_groups(b).len() + 1,
        wire_groups(united(a, b)).len() == wire_groups(a).len() + wire_groups(b).len(),
        query_json(united(a, b)) matches Json::Object(members) && members.named["query"@]
            == Json::List(wire_groups(united(a, b))),
{
}

proof fn lemma_gathered_len(pages: Seq<Page>)
    ensures
        gathered(pages).len() == total_items(pages),
    decreases pages.len(),
{
    if pages.len() > 0 {
        lemma_gathered_len(pages.drop_first());
    }
}

proof fn lemma_pages(walk: WalkView, pages: Seq<Page>)
    requires
        pages.len() >= 1,
        all_continue(pages),
    ensures
        ({
            let last = pages.last().paging.last;
            let items = walk.items + gathered(pages);
            let query = continued(walk.query, last);
            if last.len() == 0 {
                after_pages(walk, pages) == WalkStepView::Done(items)
            } else {
                after_pages(walk, pages) == WalkStepView::Next(
                    WalkView { query, items, first: false },
                    run_wire(query),
                )
            }
        }),
    decreases pages.len(),
{
    let rest = pages.drop_first();
    if pages.len() == 1 {
        assert(gathered(rest) =~= Seq::empty());
    } else {
        assert(all_continue(rest)) by {
            assert forall|i: int| 0 <= i < rest.len() - 1 implies rest[i].paging.last.len()
                > 0 by {
                assert(rest[i] == pages[i + 1]);
            }
        }
        // The first page gives a cursor, so the walk goes on with the rest.
        assert(pages[0].paging.last.len() > 0);
        let next = walk_step(walk, Ok(pages.first()))->Next_0;
        lemma_pages(next, rest);
        assert(next.items + gathered(rest) =~= walk.items + gathered(pages));
    }
}

/// A walk gathers every page with one request for each. Where the replies
/// are pages of which all but the last give a cursor, each page but the last
/// leads to one more request, which continues the query after the cursor of
/// that page; the last page ends the walk with the items of all pages, in
/// order, so with as many items as the pages hold together. With the request
/// that started the walk, that is one request for each page.
pub proof fn lemma_walk_gathers_pages(q: QueryView, pages: Seq<Page>)
    requires
        q.limit is None,
        pages.len() >= 1,
        all_continue(pages),
        pages.last().paging.last.len() == 0,
    ensures
        walk_start(q) matches Ok(start) && start.1 == run_wire(q) && after_pages(start.0, pages)
            == WalkStepView::Done(gathered(pages)),
        gathered(pages).len() == total_items(pages),
        forall|k: int|
            1 <= k < pages.len() ==> (#[trigger] after_pages(walk_start(q)->Ok_0.0, pages.take(k))
                matches WalkStepView::Next(_, request) && request == run_wire(
                continued(q, pages[k - 1].paging.last),
            )),
{
    let walk = walk_start(q)->Ok_0.0;
    lemma_pages(walk, pages);
    lemma_gathered_len(pages);
    assert forall|k: int| 1 <= k < pages.len() implies (#[trigger] after_pages(walk, pages.take(k))
        matches WalkStepView::Next(_, request) && request == run_wire(
        continued(q, pages[k - 1].paging.last),
    )) by {
        let shown = pages.take(k);
        assert(all_continue(shown)) by {
            assert forall|i: int| 0 <= i < shown.len() - 1 implies shown[i].paging.last.len()
                > 0 by {
                assert(shown[i] == pages[i]);
            }
        }
        lemma_pages(walk, shown);
    }
}

impl Clone for Query {
    fn clone(&self) -> (copy: Self)
        ensures
            copy@ == self@,
    {
        Query {
            base: self.base.clone(),
            limit: self.limit,
            last: copy_opt_string(&self.last),
            sort: self.sort,
            container: copy_values(&self.container),
            map: copy_object(&self.map),
        }
    }
}

impl Query {
    /// The query on `base` that nothing was set of yet.
    pub fn new(base: Base) -> (q: Query)
        ensures
            q@ == blank(base@),
    {
        let q = Query {
            base,
            limit: None,
            last: None,
            sort: Some(false),
            container: Vec::new(),
            map: new_object(),
        };
        assert(jsons_of(q.container@) =~= Seq::empty());
        q
    }

    /// Sets the page size.
    pub fn limit(self, limit: u16) -> (q: Query)
        ensures
            q@ == (QueryView { limit: Some(limit), ..self@ }),
    {
        let mut q = self;
        q.limit = Some(limit);
        q
    }

    /// Sets the cursor after which results are wanted.
    pub fn last(self, last: &str) -> (q: Query)
        ensures
            q@ == continued(self@, last@),
    {
        let mut q = self;
        q.last = Some(String::from_str(last));
        q
    }

    /// Sets whether results come in descending order.
    pub fn sort(self, desc: bool) -> (q: Query)
        ensures
            q@ == (QueryView { sort: Some(desc), ..self@ }),
    {
        let mut q = self;
        q.sort = Some(desc);
        q
    }

    /// Adds a group that was made by hand.
    pub fn append(self, value: Value) -> (q: Query)
        ensures
            q@ == with_group(self@, json_of(value)),
    {
        let mut q = self;
        q.container.push(value);
        assert(jsons_of(q.container@) =~= jsons_of(self.container@).push(json_of(value)));
        q
    }

    /// Adds all groups of `other` as alternatives.
    pub fn union(self, other: Query) -> (q: Query)
        ensures
            q@ == united(self@, other@),
    {
        let mut q = self;
        let Query { base: _, limit: _, last: _, sort: _, container, map } = other;
        let mut added = container;
        q.container.append(&mut added);
        q.container.push(from_object(map));
        assert(jsons_of(q.container@) =~= jsons_of(self.container@) + wire_groups(other@));
        q
    }

    /// Sets the filter that compares `field` with `value` by `comparator`.
    /// A filter that the group in progress holds under the same key is
    /// replaced.
    pub fn set(self, comparator: Comparator, field: &str, value: Value) -> (q: Query)
        ensures
            q@ == with_filter(self@, filter_key(comparator, field@), json_of(value)),
    {
        let mut q = self;
        put_member(&mut q.map, comparator.key(field), value);
        q
    }

    /// Wants `field` equal to `value`.
    pub fn equals(self, field: &str, value: Value) -> (q: Query)
        ensures
            q@ == with_filter(self@, filter_key(Comparator::Equals, field@), json_of(value)),
    {
        self.set(Comparator::Equals, field, value)
    }

    /// Wants `field` different from `value`.
    pub fn not_equals(self, field: &str, value: Value) -> (q: Query)
        ensures
            q@ == with_filter(self@, filter_key(Comparator::NotEquals, field@), json_of(value)),
    {
        self.set(Comparator::NotEquals, field, value)
    }

    /// Wants `field` greater than `value`.
    pub fn greater_than(self, field: &str, value: Value) -> (q: Query)
        ensures
            q@ == with_filter(self@, filter_key(Comparator::GreaterThan, field@), json_of(value)),
    {
        self.set(Comparator::GreaterThan, field, value)
    }

    /// Wants `field` greater than or equal to `value`.
    pub fn greater_than_or_equals(self, field: &str, value: Value) -> (q: Query)
        ensures
            q@ == with_filter(
                self@,
                filter_key(Comparator::GreaterThanOrEquals, field@),
                json_of(value),
            ),
    {
        self.set(Comparator::GreaterThanOrEquals, field, value)
    }

    /// Wants `field` less than `value`.
    pub fn less_than(self, field: &str, value: Value) -> (q: Query)
        ensures
            q@ == with_filter(self@, filter_key(Comparator::LessThan, field@), json_of(value)),
    {
        self.set(Comparator::LessThan, field, value)
    }

    /// Wants `field` less than or equal to `value`.
    pub fn less_than_or_equals(self, field: &str, value: Value) -> (q: Query)
        ensures
            q@ == with_filter(
                self@,
                filter_key(Comparator::LessThanOrEquals, field@),
                json_of(value),
            ),
    {
        self.set(Comparator::LessThanOrEquals, field, value)
    }

    /// Wants `field` within the two bounds that `value` lists.
    pub fn in_range(self, field: &str, value: Value) -> (q: Query)
        ensures
            q@ == with_filter(self@, filter_key(Comparator::Range, field@), json_of(value)),
    {
        self.set(Comparator::Range, field, value)
    }

    /// Wants `field` to contain `value`.
    pub fn contains(self, field: &str, value: Value) -> (q: Query)
        ensures
            q@ == with_filter(self@, filter_key(Comparator::Contains, field@), json_of(value)),
    {
        self.set(Comparator::Contains, field, value)
    }

    /// Wants `field` not to contain `value`.
    pub fn not_contains(self, field: &str, value: Value) -> (q: Query)
        ensures
            q@ == with_filter(self@, filter_key(Comparator::NotContains, field@), json_of(value)),
    {
        self.set(Comparator::NotContains, field, value)
    }

    /// Wants `field` to start with `value`.
    pub fn prefix(self, field: &str, value: Value) -> (q: Query)
        ensures
            q@ == with_filter(self@, filter_key(Comparator::Prefix, field@), json_of(value)),
    {
        self.set(Comparator::Prefix, field, value)
    }

    /// This query on the wire.
    pub fn serialize(&self) -> (v: Value)
        ensures
            json_of(v) == query_json(self@),
    {
        let mut members = new_object();
        let limit = match self.limit {
            Some(n) => n,
            None => DEFAULT_LIMIT,
        };
        put_member(&mut members, String::from_str("limit"), from_u16(limit));
        if let Some(last) = &self.last {
            put_member(&mut members, String::from_str("last"), from_string(last.clone()));
        }
        if let Some(true) = self.sort {
            let descending = from_string(String::from_str("desc"));
            put_member(&mut members, String::from_str("sort"), descending);
        }
        let mut outer = copy_values(&self.container);
        outer.push(from_object(copy_object(&self.map)));
        assert(jsons_of(outer@) =~= wire_groups(self@));
        put_member(&mut members, String::from_str("query"), from_list(outer));
        from_object(members)
    }

    /// The request that runs this query once.
    pub fn run(&self) -> (r: Request<'static>)
        ensures
            r@ == run_wire(self@),
    {
        self.base.request(Method::Post, "/query", Some(self.serialize()))
    }

    /// Starts gathering all results of this query, page after page: the walk
    /// and its first request. A query with a page size set is refused, and
    /// no request is made for it. `QueryWalk::step` takes each reply.
    pub fn walk(&self) -> (start: Result<(QueryWalk, Request<'static>), DetaError>)
        ensures
            started(start) == walk_start(self@),
    {
        if self.limit.is_some() {
            return Err(DetaError::payload("limit must be unset for full-walk mode"));
        }
        let walk = QueryWalk { query: self.clone(), items: Vec::new(), first: true };
        assert(jsons_of(walk.items@) =~= Seq::empty());
        Ok((walk, self.run()))
    }
}

/// The gathering of all results of a query, under way: the items gathered so
/// far and the query that the next request continues.
#[derive(Debug)]
pub struct QueryWalk {
    query: Query,
    items: Vec<Value>,
    first: bool,
}

/// What a `QueryWalk` holds.
pub struct WalkView {
    pub query: QueryView,
    pub items: Seq<Json>,
    /// Whether no reply has come yet.
    pub first: bool,
}

impl View for QueryWalk {
    type V = WalkView;

    closed spec fn view(&self) -> WalkView {
        WalkView { query: self.query@, items: jsons_of(self.items@), first: self.first }
    }
}

/// What follows a reply in a walk.
#[derive(Debug)]
pub enum WalkStep {
    /// Another page is to be fetched with this request.
    Next(QueryWalk, Request<'static>),
    /// The walk is over: these are the items, in the order of the pages.
    Done(Vec<Value>),
    /// The walk failed before it gathered anything.
    Failed(DetaError),
}

/// What a `WalkStep` holds.
pub enum WalkStepView {
    Next(WalkView, Wire),
    Done(Seq<Json>),
    Failed(Failure),
}

impl View for WalkStep {
    type V = WalkStepView;

    open spec fn view(&self) -> WalkStepView {
        match self {
            WalkStep::Next(walk, request) => WalkStepView::Next(walk@, request@),
            WalkStep::Done(items) => WalkStepView::Done(jsons_of(items@)),
            WalkStep::Failed(e) => WalkStepView::Failed(e@),
        }
    }
}

/// What the start of a walk, or its refusal, holds.
pub open spec fn started(start: Result<(QueryWalk, Request<'static>), DetaError>) -> Result<
    (WalkView, Wire),
    Failure,
> {
    match start {
        Ok((walk, request)) => Ok((walk@, request@)),
        Err(e) => Err(e@),
    }
}

/// What a page or the failure to get one holds.
pub open spec fn page_outcome(reply: Result<QueryResult, DetaError>) -> Result<Page, Failure> {
    match reply {
        Ok(page) => Ok(page@),
        Err(e) => Err(e@),
    }
}

/// How a walk of the query `q` starts: refused where a page size is set,
/// else with nothing gathered and the request that runs `q` as it is.
pub open spec fn walk_start(q: QueryView) -> Result<(WalkView, Wire), Failure> {
    if q.limit is Some {
        Err(Failure::PayloadError { msg: "limit must be unset for full-walk mode"@ })
    } else {
        Ok((WalkView { query: q, items: Seq::empty(), first: true }, run_wire(q)))
    }
}

/// What follows a reply in a walk. A page adds its items; the walk goes on
/// after the page's cursor unless that is empty. A failure of the first
/// request fails the walk; a later failure ends it with the items gathered
/// before.
pub open spec fn walk_step(walk: WalkView, reply: Result<Page, Failure>) -> WalkStepView {
    match reply {
        Err(e) => if walk.first {
            WalkStepView::Failed(e)
        } else {
            WalkStepView::Done(walk.items)
        },
        Ok(page) => {
            let items = walk.items + page.items;
            if page.paging.last.len() == 0 {
                WalkStepView::Done(items)
            } else {
                let query = continued(walk.query, page.paging.last);
                WalkStepView::Next(WalkView { query, items, first: false }, run_wire(query))
            }
        },
    }
}

impl QueryWalk {
    /// What follows the reply to the last request of this walk.
    pub fn step(self, reply: Result<QueryResult, DetaError>) -> (step: WalkStep)
        ensures
            step@ == walk_step(self@, page_outcome(reply)),
    {
        let QueryWalk { query, items, first } = self;
        match reply {
            Err(e) => {
                if first {
                    WalkStep::Failed(e)
                } else {
                    WalkStep::Done(items)
                }
            },
            Ok(page) => {
                let mut items = items;
                let mut added = page.items;
                items.append(&mut added);
                assert(jsons_of(items@) =~= jsons_of(self.items@) + jsons_of(page.items@));
                if page.paging.last.as_str().is_empty() {
                    WalkStep::Done(items)
                } else {
                    let query = query.last(page.paging.last.as_str());
                    let request = query.run();
                    WalkStep::Next(QueryWalk { query, items, first: false }, request)
                }
            },
        }
    }
}

} // verus!
