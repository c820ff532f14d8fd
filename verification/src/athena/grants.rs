//! Data cell filters of Lake Formation and who may select through them.

use crate::athena::driver::{
    call, called, fail, failed, replies_view, then_do, within, OpsErrorKind, Progress, ProgressView,
    Reply, ReplyView,
};
use crate::athena::glue::{catalog_id, opt_as_str, text, AthenaOps, RelationParts};
use crate::athena::lakeformation::{
    all_called, calls_view, FilterConfig, FilterView, LfCall, LfCallView, LfGrantsConfig,
};
use crate::athena::storage::{texts_among, texts_of};
use crate::json::{
    fields, items_of, items_view, list, member, nil, opt, single, text_at, texts, texts_view, Json,
    JsonView,
};
use crate::number::{decimal, decimal_of};
use crate::ordered::{
    ascending, difference, difference_holds, find, found, found_is_there, has_key, insert, inserted,
    keyed, minus, set_holds_all, set_of, to_set,
};
use crate::text::{debug_option, debug_optional, same, views};
use vstd::prelude::*;

verus! {

pub type Filters = Seq<(Seq<char>, FilterView)>;

pub type Existing = Seq<(Seq<char>, JsonView)>;

// ---------------------------------------------------------------------------
// Filters
// ---------------------------------------------------------------------------

/// The filters that Lake Formation lists, by name. What has no name is passed over.
pub open spec fn by_name(filters: Seq<JsonView>) -> Existing
    decreases filters.len(),
{
    if filters.len() == 0 {
        Seq::empty()
    } else {
        let rest = by_name(filters.drop_last());
        match text_at(filters.last(), "Name"@) {
            Some(name) => inserted(rest, name, filters.last()),
            None => rest,
        }
    }
}

/// A filter as Lake Formation takes it.
pub open spec fn table_data(
    catalog: Seq<char>,
    relation: RelationParts,
    name: Seq<char>,
    filter: FilterView,
) -> JsonView {
    JsonView::Object(
        nil().push(("TableCatalogId"@, text(catalog))).push(
            ("DatabaseName"@, text(relation.schema@)),
        ).push(("TableName"@, text(relation.identifier@))).push(("Name"@, text(name))).push(
            (
                "RowFilter"@,
                JsonView::Object(nil().push(("FilterExpression"@, text(filter.row_filter)))),
            ),
        ).push(("ColumnNames"@, texts_view(filter.column_names))).push(
            (
                "ColumnWildcard"@,
                JsonView::Object(
                    nil().push(("ExcludedColumnNames"@, texts_view(Seq::empty()))),
                ),
            ),
        ),
    )
}

/// The columns that an existing filter names.
pub open spec fn existing_columns(existing: JsonView) -> Seq<Seq<char>> {
    texts_among(items_of(member(existing, "ColumnNames"@)))
}

/// The row filter or the set of columns differs from what is there.
pub open spec fn differs(filter: FilterView, existing: JsonView) -> bool {
    text_at(member(existing, "RowFilter"@), "FilterExpression"@) != Some(filter.row_filter)
        || set_of(existing_columns(existing)) != set_of(filter.column_names)
}

pub open spec fn plain(operation: Seq<char>, payload: JsonView) -> LfCallView {
    LfCallView { operation, payload, what: None }
}

pub open spec fn delete_call(name: Seq<char>, existing: JsonView) -> LfCallView {
    plain(
        "lakeformation.delete_data_cells_filter"@,
        JsonView::Object(
            nil().push(("TableCatalogId"@, member(existing, "TableCatalogId"@))).push(
                ("DatabaseName"@, member(existing, "DatabaseName"@)),
            ).push(("TableName"@, member(existing, "TableName"@))).push(("Name"@, text(name))),
        ),
    )
}

/// Deleting the existing filters that are not configured.
pub open spec fn delete_calls(current: Existing, filters: Filters) -> Seq<LfCallView>
    decreases current.len(),
{
    if current.len() == 0 {
        Seq::empty()
    } else {
        let rest = delete_calls(current.drop_last(), filters);
        let (name, existing) = current.last();
        if found(filters, name) is Some {
            rest
        } else {
            rest.push(delete_call(name, existing))
        }
    }
}

pub open spec fn data_payload(data: JsonView) -> JsonView {
    JsonView::Object(nil().push(("TableData"@, data)))
}

/// What is to be done for a configured filter: creating it where it is not there, updating
/// it where it differs.
pub open spec fn write_call(
    catalog: Seq<char>,
    relation: RelationParts,
    name: Seq<char>,
    filter: FilterView,
    current: Existing,
) -> Option<LfCallView> {
    let data = table_data(catalog, relation, name, filter);
    match found(current, name) {
        None => Some(plain("lakeformation.create_data_cells_filter"@, data_payload(data))),
        Some(existing) => if differs(filter, existing) {
            Some(plain("lakeformation.update_data_cells_filter"@, data_payload(data)))
        } else {
            None
        },
    }
}

pub open spec fn write_calls(
    catalog: Seq<char>,
    relation: RelationParts,
    filters: Filters,
    current: Existing,
) -> Seq<LfCallView>
    decreases filters.len(),
{
    if filters.len() == 0 {
        Seq::empty()
    } else {
        let rest = write_calls(catalog, relation, filters.drop_last(), current);
        let (name, filter) = filters.last();
        match write_call(catalog, relation, name, filter, current) {
            Some(c) => rest.push(c),
            None => rest,
        }
    }
}

/// The calls that bring the filters of a table to what is configured.
pub open spec fn filter_calls(
    catalog: Seq<char>,
    relation: RelationParts,
    filters: Filters,
    listed: JsonView,
) -> Seq<LfCallView> {
    let current = by_name(items_of(member(listed, "DataCellsFilters"@)));
    delete_calls(current, filters) + write_calls(catalog, relation, filters, current)
}

// ---------------------------------------------------------------------------
// Principals
// ---------------------------------------------------------------------------

pub open spec fn filter_resource(
    catalog: Seq<char>,
    relation: RelationParts,
    name: Seq<char>,
) -> JsonView {
    JsonView::Object(
        nil().push(
            (
                "DataCellsFilter"@,
                JsonView::Object(
                    nil().push(("TableCatalogId"@, text(catalog))).push(
                        ("DatabaseName"@, text(relation.schema@)),
                    ).push(("TableName"@, text(relation.identifier@))).push(
                        ("Name"@, text(name)),
                    ),
                ),
            ),
        ),
    )
}

/// The principals that permissions name.
pub open spec fn principals_of(permissions: Seq<JsonView>) -> Seq<Seq<char>>
    decreases permissions.len(),
{
    if permissions.len() == 0 {
        Seq::empty()
    } else {
        let rest = principals_of(permissions.drop_last());
        match text_at(member(permissions.last(), "Principal"@), "DataLakePrincipalIdentifier"@) {
            Some(p) => rest.push(p),
            None => rest,
        }
    }
}

pub open spec fn granted(response: JsonView) -> Seq<Seq<char>> {
    principals_of(items_of(member(response, "PrincipalResourcePermissions"@)))
}

pub open spec fn entry(id: int, principal: Seq<char>, resource: JsonView) -> JsonView {
    JsonView::Object(
        nil().push(("Id"@, text(decimal(id)))).push(
            (
                "Principal"@,
                JsonView::Object(nil().push(("DataLakePrincipalIdentifier"@, text(principal)))),
            ),
        ).push(("Resource"@, resource)).push(
            ("Permissions"@, JsonView::List(seq![text("SELECT"@)])),
        ).push(("PermissionsWithGrantOption"@, texts_view(Seq::empty()))),
    )
}

pub open spec fn entries(principals: Seq<Seq<char>>, resource: JsonView) -> JsonView {
    JsonView::List(principals.map(|i: int, p: Seq<char>| entry(i, p, resource)))
}

pub open spec fn batch_call(
    operation: Seq<char>,
    verb: Seq<char>,
    catalog: Seq<char>,
    name: Seq<char>,
    principals: Seq<Seq<char>>,
    resource: JsonView,
) -> Seq<LfCallView> {
    if principals.len() == 0 {
        Seq::empty()
    } else {
        seq![
            LfCallView {
                operation,
                payload: JsonView::Object(
                    nil().push(("CatalogId"@, text(catalog))).push(
                        ("Entries"@, entries(principals, resource)),
                    ),
                ),
                what: Some(verb + " SELECT on data cell filter "@ + name),
            },
        ]
    }
}

/// Who may select through a filter and should not.
pub open spec fn to_revoke(current: Seq<Seq<char>>, wanted: Seq<Seq<char>>) -> Seq<Seq<char>> {
    difference(set_of(current), set_of(wanted))
}

/// Who should be able to select through a filter and may not.
pub open spec fn to_grant(current: Seq<Seq<char>>, wanted: Seq<Seq<char>>) -> Seq<Seq<char>> {
    difference(set_of(wanted), set_of(current))
}

/// The calls that bring the grantees of a filter to the configured ones.
pub open spec fn principal_calls(
    catalog: Seq<char>,
    relation: RelationParts,
    name: Seq<char>,
    filter: FilterView,
    response: JsonView,
) -> Seq<LfCallView> {
    let resource = filter_resource(catalog, relation, name);
    batch_call(
        "lakeformation.batch_revoke_permissions"@,
        "revoke"@,
        catalog,
        name,
        to_revoke(granted(response), filter.principals),
        resource,
    ) + batch_call(
        "lakeformation.batch_grant_permissions"@,
        "grant"@,
        catalog,
        name,
        to_grant(granted(response), filter.principals),
        resource,
    )
}

/// Bringing the grantees of the filters from `i` on to the configured ones.
pub open spec fn granted_all(
    catalog: Seq<char>,
    relation: RelationParts,
    filters: Filters,
    i: int,
    replies: Seq<ReplyView>,
    at: int,
) -> ProgressView<()>
    decreases filters.len() - i,
{
    if i < 0 || i >= filters.len() {
        ProgressView::Got((), at)
    } else {
        let (name, filter) = filters[i];
        match called(
            replies,
            at,
            "lakeformation.list_permissions"@,
            JsonView::Object(
                nil().push(("Resource"@, filter_resource(catalog, relation, name))),
            ),
        ) {
            ProgressView::Ask(r) => ProgressView::Ask(r),
            ProgressView::Fail(e, n) => ProgressView::Fail(e, n),
            ProgressView::Got(response, n) => match all_called(
                principal_calls(catalog, relation, name, filter, response),
                0,
                replies,
                n,
            ) {
                ProgressView::Ask(r) => ProgressView::Ask(r),
                ProgressView::Fail(e, m) => ProgressView::Fail(e, m),
                ProgressView::Got(_, m) => granted_all(
                    catalog,
                    relation,
                    filters,
                    i + 1,
                    replies,
                    m,
                ),
            },
        }
    }
}

/// Bringing filters and grantees to what is configured, with the catalog known.
pub open spec fn applied(
    catalog: Seq<char>,
    relation: RelationParts,
    filters: Filters,
    replies: Seq<ReplyView>,
    at: int,
) -> ProgressView<()> {
    then_do(
        called(
            replies,
            at,
            "lakeformation.list_data_cells_filter"@,
            JsonView::Object(
                nil().push(
                    (
                        "Table"@,
                        JsonView::Object(
                            nil().push(("CatalogId"@, text(catalog))).push(
                                ("DatabaseName"@, text(relation.schema@)),
                            ).push(("Name"@, text(relation.identifier@))),
                        ),
                    ),
                ),
            ),
        ),
        |listed: JsonView, n: int|
            then_do(
                all_called(filter_calls(catalog, relation, filters, listed), 0, replies, n),
                |done: (), m: int| granted_all(catalog, relation, filters, 0, replies, m),
            ),
    )
}

/// Making the data cell filters of a table and their grantees exactly the configured ones.
pub open spec fn grants_applied(
    relation: RelationParts,
    config: LfGrantsConfig,
    replies: Seq<ReplyView>,
    at: int,
) -> ProgressView<()> {
    then_do(
        catalog_id(opt(relation.database), replies, at),
        |catalog: Option<Seq<char>>, n: int|
            match catalog {
                None => failed(
                    OpsErrorKind::UnexpectedResult,
                    "lf_grants: no Glue catalog id for database "@ + debug_option(
                        opt(relation.database),
                    ),
                    n,
                ),
                Some(id) => applied(
                    id,
                    relation,
                    keyed(config.data_cell_filters.filters@),
                    replies,
                    n,
                ),
            },
    )
}

// ---------------------------------------------------------------------------
// What the calls bring about
// ---------------------------------------------------------------------------

/// Revoking and granting leaves exactly the wanted principals: whoever had the grant and
/// is not revoked, or is granted it, is wanted, and nobody else.
pub proof fn grantees_become_wanted(
    current: Seq<Seq<char>>,
    wanted: Seq<Seq<char>>,
    principal: Seq<char>,
)
    ensures
        ((current.contains(principal) && !to_revoke(current, wanted).contains(principal))
            || to_grant(current, wanted).contains(principal)) <==> wanted.contains(principal),
{
    set_holds_all(current, principal);
    set_holds_all(wanted, principal);
    difference_holds(set_of(current), set_of(wanted), principal);
    difference_holds(set_of(wanted), set_of(current), principal);
}

/// The name of the filter that a call deletes.
pub open spec fn deleted_name(c: LfCallView) -> Option<Seq<char>> {
    if c.operation == "lakeformation.delete_data_cells_filter"@ {
        text_at(c.payload, "Name"@)
    } else {
        None
    }
}

/// The name and content of the filter that a call creates or updates.
pub open spec fn written(c: LfCallView) -> Option<(Seq<char>, JsonView)> {
    if c.operation == "lakeformation.create_data_cells_filter"@ || c.operation
        == "lakeformation.update_data_cells_filter"@ {
        let data = member(c.payload, "TableData"@);
        match text_at(data, "Name"@) {
            Some(name) => Some((name, data)),
            None => None,
        }
    } else {
        None
    }
}

/// The filters of a table after a call: a deleted one is gone, a created or updated one is
/// as it was written.
pub open spec fn after_call(
    state: Map<Seq<char>, JsonView>,
    c: LfCallView,
) -> Map<Seq<char>, JsonView> {
    match deleted_name(c) {
        Some(name) => state.remove(name),
        None => match written(c) {
            Some((name, data)) => state.insert(name, data),
            None => state,
        },
    }
}

pub open spec fn after_calls(
    state: Map<Seq<char>, JsonView>,
    calls: Seq<LfCallView>,
) -> Map<Seq<char>, JsonView>
    decreases calls.len(),
{
    if calls.len() == 0 {
        state
    } else {
        after_call(after_calls(state, calls.drop_last()), calls.last())
    }
}

/// The filters that are there, by name.
pub open spec fn state_of(current: Existing) -> Map<Seq<char>, JsonView> {
    Map::new(|name: Seq<char>| found(current, name) is Some, |name: Seq<char>| found(current, name)->0)
}

/// A filter as it is stored says what the configuration says: its row filter and its set
/// of columns.
pub open spec fn says(stored: JsonView, filter: FilterView) -> bool {
    !differs(filter, stored)
}

proof fn operations_differ()
    ensures
        "lakeformation.delete_data_cells_filter"@ != "lakeformation.create_data_cells_filter"@,
        "lakeformation.delete_data_cells_filter"@ != "lakeformation.update_data_cells_filter"@,
{
    reveal_strlit("lakeformation.delete_data_cells_filter");
    reveal_strlit("lakeformation.create_data_cells_filter");
    reveal_strlit("lakeformation.update_data_cells_filter");
    assert("lakeformation.delete_data_cells_filter"@[14] == 'd');
    assert("lakeformation.create_data_cells_filter"@[14] == 'c');
    assert("lakeformation.update_data_cells_filter"@[14] == 'u');
}

proof fn delete_call_deletes(name: Seq<char>, existing: JsonView)
    ensures
        deleted_name(delete_call(name, existing)) == Some(name),
{
    reveal_strlit("TableCatalogId");
    reveal_strlit("DatabaseName");
    reveal_strlit("TableName");
    reveal_strlit("Name");
    assert("TableCatalogId"@.len() == 14);
    assert("DatabaseName"@.len() == 12);
    assert("TableName"@.len() == 9);
    assert("Name"@.len() == 4);
    let payload = delete_call(name, existing).payload->Object_0;
    crate::json::place_is_unique(payload, "Name"@, 3);
}

proof fn stored_data(
    catalog: Seq<char>,
    relation: RelationParts,
    name: Seq<char>,
    filter: FilterView,
)
    ensures
        ({
            let data = table_data(catalog, relation, name, filter);
            &&& text_at(data, "Name"@) == Some(name)
            &&& says(data, filter)
            &&& member(data_payload(data), "TableData"@) == data
        }),
{
    reveal_strlit("TableCatalogId");
    reveal_strlit("DatabaseName");
    reveal_strlit("TableName");
    reveal_strlit("Name");
    reveal_strlit("RowFilter");
    reveal_strlit("ColumnNames");
    reveal_strlit("ColumnWildcard");
    assert("TableCatalogId"@.len() == 14);
    assert("DatabaseName"@.len() == 12);
    assert("TableName"@.len() == 9);
    assert("TableName"@[0] == 'T');
    assert("RowFilter"@[0] == 'R');
    assert("Name"@.len() == 4);
    assert("RowFilter"@.len() == 9);
    assert("ColumnNames"@.len() == 11);
    assert("ColumnWildcard"@.len() == 14);
    let data = table_data(catalog, relation, name, filter);
    let f = data->Object_0;
    crate::json::place_is_unique(f, "Name"@, 3);
    crate::json::place_is_unique(f, "RowFilter"@, 4);
    crate::json::place_is_unique(f, "ColumnNames"@, 5);
    let inner = f[4].1->Object_0;
    crate::json::place_is_unique(inner, "FilterExpression"@, 0);
    crate::json::place_is_unique(data_payload(data)->Object_0, "TableData"@, 0);
    texts_come_back(filter.column_names);
}

/// The texts among a list of texts are those texts.
proof fn texts_come_back(t: Seq<Seq<char>>)
    ensures
        texts_among(items_of(texts_view(t))) == t,
    decreases t.len(),
{
    let items = items_of(texts_view(t));
    if t.len() > 0 {
        texts_come_back(t.drop_last());
        assert(items.drop_last() =~= items_of(texts_view(t.drop_last())));
        assert(texts_among(items) =~= t);
    } else {
        assert(texts_among(items) =~= t);
    }
}

proof fn after_deletes(current: Existing, filters: Filters, state: Map<Seq<char>, JsonView>, name: Seq<char>)
    ensures
        after_calls(state, delete_calls(current, filters)).contains_key(name) <==> (
        state.contains_key(name) && !(has_key(current, name) && found(filters, name) is None)),
        after_calls(state, delete_calls(current, filters)).contains_key(name) ==> after_calls(
            state,
            delete_calls(current, filters),
        )[name] == state[name],
    decreases current.len(),
{
    if current.len() > 0 {
        let rest = current.drop_last();
        after_deletes(rest, filters, state, name);
        found_is_there(current, name);
        found_is_there(rest, name);
        let (last, existing) = current.last();
        if found(filters, last) is None {
            delete_call_deletes(last, existing);
            let calls = delete_calls(current, filters);
            assert(calls.drop_last() =~= delete_calls(rest, filters));
        }
    }
}

proof fn after_writes(
    catalog: Seq<char>,
    relation: RelationParts,
    filters: Filters,
    current: Existing,
    state: Map<Seq<char>, JsonView>,
    calls: Seq<LfCallView>,
    name: Seq<char>,
)
    requires
        ascending(filters),
        forall|n: Seq<char>|
            has_key(filters, n) && found(current, n) is Some ==> (#[trigger] after_calls(
                state,
                calls,
            ).contains_key(n)) && after_calls(state, calls)[n] == found(current, n)->0,
    ensures
        ({
            let end = after_calls(state, calls + write_calls(catalog, relation, filters, current));
            &&& found(filters, name) matches Some(filter) ==> end.contains_key(name) && says(
                end[name],
                filter,
            )
            &&& found(filters, name) is None ==> (end.contains_key(name) <==> after_calls(
                state,
                calls,
            ).contains_key(name))
        }),
    decreases filters.len(),
{
    operations_differ();
    if filters.len() == 0 {
        assert(calls + write_calls(catalog, relation, filters, current) =~= calls);
    } else {
        let rest = filters.drop_last();
        let (last, filter) = filters.last();
        assert(ascending(rest)) by {
            assert forall|i: int, j: int| 0 <= i < j < rest.len() implies crate::ordered::less(
                (#[trigger] rest[i]).0,
                (#[trigger] rest[j]).0,
            ) by {
                assert(rest[i] == filters[i] && rest[j] == filters[j]);
            }
        }
        assert forall|n: Seq<char>| has_key(rest, n) && found(current, n) is Some implies (
        #[trigger] after_calls(state, calls).contains_key(n)) && after_calls(state, calls)[n]
            == found(current, n)->0 by {
            let k = choose|k: int| 0 <= k < rest.len() && (#[trigger] rest[k]).0 == n;
            assert(filters[k].0 == n);
        }
        after_writes(catalog, relation, rest, current, state, calls, name);
        after_writes(catalog, relation, rest, current, state, calls, last);
        stored_data(catalog, relation, last, filter);
        let before = calls + write_calls(catalog, relation, rest, current);
        let all = calls + write_calls(catalog, relation, filters, current);
        assert(found(rest, last) is None) by {
            found_is_there(rest, last);
            if has_key(rest, last) {
                let k = choose|k: int| 0 <= k < rest.len() && (#[trigger] rest[k]).0 == last;
                assert(crate::ordered::less(filters[k].0, filters[filters.len() - 1].0));
                crate::ordered::less_is_irreflexive(last);
            }
        }
        match write_call(catalog, relation, last, filter, current) {
            Some(c) => {
                assert(all.drop_last() =~= before);
                assert(all.last() == c);
                assert(written(c) == Some((last, table_data(catalog, relation, last, filter))));
            },
            None => {
                assert(all =~= before);
                assert(filters[filters.len() - 1].0 == last);
                assert(has_key(filters, last));
                assert(after_calls(state, calls).contains_key(last));
                untouched(catalog, relation, rest, current, state, calls, last);
            },
        }
    }
}

/// Writing filters does not touch a filter of another name.
proof fn untouched(
    catalog: Seq<char>,
    relation: RelationParts,
    filters: Filters,
    current: Existing,
    state: Map<Seq<char>, JsonView>,
    calls: Seq<LfCallView>,
    name: Seq<char>,
)
    requires
        found(filters, name) is None,
        after_calls(state, calls).contains_key(name),
    ensures
        ({
            let end = after_calls(state, calls + write_calls(catalog, relation, filters, current));
            end.contains_key(name) && end[name] == after_calls(state, calls)[name]
        }),
    decreases filters.len(),
{
    operations_differ();
    if filters.len() == 0 {
        assert(calls + write_calls(catalog, relation, filters, current) =~= calls);
    } else {
        let rest = filters.drop_last();
        let (last, filter) = filters.last();
        untouched(catalog, relation, rest, current, state, calls, name);
        stored_data(catalog, relation, last, filter);
        let before = calls + write_calls(catalog, relation, rest, current);
        let all = calls + write_calls(catalog, relation, filters, current);
        match write_call(catalog, relation, last, filter, current) {
            Some(c) => {
                assert(all.drop_last() =~= before);
                assert(all.last() == c);
                assert(written(c) == Some((last, table_data(catalog, relation, last, filter))));
            },
            None => {
                assert(all =~= before);
            },
        }
    }
}

/// The filters of a table become exactly the configured ones: after the calls a filter is
/// there if and only if it is configured, and then it says what is configured.
pub proof fn filters_become_configured(
    catalog: Seq<char>,
    relation: RelationParts,
    filters: Filters,
    listed: JsonView,
    name: Seq<char>,
)
    requires
        ascending(filters),
    ensures
        ({
            let current = by_name(items_of(member(listed, "DataCellsFilters"@)));
            let end = after_calls(
                state_of(current),
                filter_calls(catalog, relation, filters, listed),
            );
            &&& end.contains_key(name) <==> has_key(filters, name)
            &&& found(filters, name) matches Some(filter) ==> says(end[name], filter)
        }),
{
    let current = by_name(items_of(member(listed, "DataCellsFilters"@)));
    let state = state_of(current);
    let deletes = delete_calls(current, filters);
    assert forall|n: Seq<char>| has_key(filters, n) && found(current, n) is Some implies (
    #[trigger] after_calls(state, deletes).contains_key(n)) && after_calls(state, deletes)[n]
        == found(current, n)->0 by {
        after_deletes(current, filters, state, n);
        found_is_there(filters, n);
    }
    after_writes(catalog, relation, filters, current, state, deletes, name);
    after_deletes(current, filters, state, name);
    found_is_there(filters, name);
    found_is_there(current, name);
}

// ---------------------------------------------------------------------------
// Code
// ---------------------------------------------------------------------------

fn named_filters(items: &Vec<Json>) -> (r: Vec<(String, Json)>)
    ensures
        keyed(r@) == by_name(items_view(items@)),
{
    let ghost all = items_view(items@);
    let mut r: Vec<(String, Json)> = Vec::new();
    let mut i: usize = 0;
    assert(keyed(r@) =~= by_name(all.take(0)));
    while i < items.len()
        invariant
            i <= items.len(),
            all == items_view(items@),
            keyed(r@) == by_name(all.take(i as int)),
        decreases items.len() - i,
    {
        assert(all.take(i + 1).drop_last() =~= all.take(i as int));
        assert(all.take(i + 1).last() == items@[i as int]@);
        if let Some(name) = items[i].str_at("Name") {
            insert(&mut r, name.to_owned(), items[i].copy());
        }
        i += 1;
    }
    assert(all.take(i as int) =~= all);
    r
}

fn no_texts() -> (r: Json)
    ensures
        r@ == texts_view(Seq::empty()),
{
    let none: Vec<String> = Vec::new();
    assert(views(none@) =~= Seq::empty());
    texts(&none)
}

/// A filter as Lake Formation takes it.
pub fn filter_table_data(
    catalog_id: &str,
    relation: &RelationParts,
    name: &str,
    filter: &FilterConfig,
) -> (r: Json)
    ensures
        r@ == table_data(catalog_id@, *relation, name@, filter.deep_view()),
{
    let row_filter = fields().text("FilterExpression", filter.row_filter.as_str()).object();
    let wildcard = fields().with("ExcludedColumnNames", no_texts()).object();
    fields().text("TableCatalogId", catalog_id).text("DatabaseName", relation.schema.as_str()).text(
        "TableName",
        relation.identifier.as_str(),
    ).text("Name", name).with("RowFilter", row_filter).with(
        "ColumnNames",
        texts(&filter.column_names),
    ).with("ColumnWildcard", wildcard).object()
}

fn same_set(a: &Vec<(String, ())>, b: &Vec<(String, ())>) -> (r: bool)
    ensures
        r == (keyed(a@) == keyed(b@)),
{
    let ghost x = keyed(a@);
    let ghost y = keyed(b@);
    if a.len() != b.len() {
        assert(x.len() != y.len());
        return false;
    }
    let mut i: usize = 0;
    while i < a.len()
        invariant
            i <= a.len(),
            a.len() == b.len(),
            x == keyed(a@),
            y == keyed(b@),
            forall|j: int| 0 <= j < i ==> x[j] == y[j],
        decreases a.len() - i,
    {
        assert(x[i as int].0 == a@[i as int].0@);
        assert(y[i as int].0 == b@[i as int].0@);
        if !same(a[i].0.as_str(), b[i].0.as_str()) {
            assert(x[i as int] != y[i as int]);
            return false;
        }
        assert(x[i as int].1 == y[i as int].1);
        i += 1;
    }
    assert(x =~= y);
    true
}

/// Whether the row filter or the set of columns differs from what is there.
pub fn filter_changed(filter: &FilterConfig, existing: &Json) -> (r: bool)
    ensures
        r == differs(filter.deep_view(), existing@),
{
    let existing_names = match existing.get("ColumnNames") {
        Some(found) => texts_of(found),
        None => Vec::new(),
    };
    assert(views(existing_names@) =~= existing_columns(existing@));
    let expression = match existing.get("RowFilter") {
        Some(row_filter) => row_filter.str_at("FilterExpression"),
        None => None,
    };
    let same_expression = match expression {
        Some(e) => same(e, filter.row_filter.as_str()),
        None => false,
    };
    !same_expression || !same_set(&to_set(&existing_names), &to_set(&filter.column_names))
}

fn member_of(v: &Json, key: &str) -> (r: Json)
    ensures
        r@ == member(v@, key@),
{
    match v.get(key) {
        Some(found) => found.copy(),
        None => Json::Null,
    }
}

fn plan_deletes(
    current: &Vec<(String, Json)>,
    filters: &Vec<(String, FilterConfig)>,
) -> (r: Vec<LfCall>)
    ensures
        calls_view(r@) == delete_calls(keyed(current@), keyed(filters@)),
{
    let ghost all = keyed(current@);
    let mut r: Vec<LfCall> = Vec::new();
    let mut i: usize = 0;
    assert(calls_view(r@) =~= delete_calls(all.take(0), keyed(filters@)));
    while i < current.len()
        invariant
            i <= current.len(),
            all == keyed(current@),
            calls_view(r@) == delete_calls(all.take(i as int), keyed(filters@)),
        decreases current.len() - i,
    {
        assert(all.take(i + 1).drop_last() =~= all.take(i as int));
        let name = current[i].0.as_str();
        let existing = &current[i].1;
        assert(all.take(i + 1).last() == (name@, existing@));
        if find(filters, name).is_none() {
            let payload = fields().with(
                "TableCatalogId",
                member_of(existing, "TableCatalogId"),
            ).with("DatabaseName", member_of(existing, "DatabaseName")).with(
                "TableName",
                member_of(existing, "TableName"),
            ).text("Name", name).object();
            let c = LfCall {
                operation: "lakeformation.delete_data_cells_filter",
                payload,
                what: None,
            };
            let ghost prior = calls_view(r@);
            r.push(c);
            assert(calls_view(r@) =~= prior.push(c@));
        }
        i += 1;
    }
    assert(all.take(i as int) =~= all);
    r
}

fn plan_write(
    catalog: &str,
    relation: &RelationParts,
    name: &str,
    filter: &FilterConfig,
    current: &Vec<(String, Json)>,
) -> (r: Option<LfCall>)
    ensures
        match (r, write_call(catalog@, *relation, name@, filter.deep_view(), keyed(current@))) {
            (Some(c), Some(d)) => c@ == d,
            (None, None) => true,
            _ => false,
        },
{
    let operation = match find(current, name) {
        None => "lakeformation.create_data_cells_filter",
        Some(existing) => if filter_changed(filter, existing) {
            "lakeformation.update_data_cells_filter"
        } else {
            return None;
        },
    };
    let data = filter_table_data(catalog, relation, name, filter);
    Some(LfCall { operation, payload: fields().with("TableData", data).object(), what: None })
}

/// The calls that bring the filters of a table to what is configured.
pub fn plan_filters(
    catalog: &str,
    relation: &RelationParts,
    filters: &Vec<(String, FilterConfig)>,
    listed: &Json,
) -> (r: Vec<LfCall>)
    ensures
        calls_view(r@) == filter_calls(catalog@, *relation, keyed(filters@), listed@),
{
    let items = match listed.get("DataCellsFilters") {
        Some(found) => found.items(),
        None => Vec::new(),
    };
    assert(items_view(items@) =~= items_of(member(listed@, "DataCellsFilters"@)));
    let current = named_filters(&items);
    let mut calls = plan_deletes(&current, filters);
    let ghost deletes = calls_view(calls@);
    let ghost all = keyed(filters@);
    let ghost there = keyed(current@);
    let mut i: usize = 0;
    assert(calls_view(calls@) =~= deletes + write_calls(
        catalog@,
        *relation,
        all.take(0),
        there,
    ));
    while i < filters.len()
        invariant
            i <= filters.len(),
            all == keyed(filters@),
            there == keyed(current@),
            calls_view(calls@) == deletes + write_calls(
                catalog@,
                *relation,
                all.take(i as int),
                there,
            ),
        decreases filters.len() - i,
    {
        assert(all.take(i + 1).drop_last() =~= all.take(i as int));
        let name = filters[i].0.as_str();
        let filter = &filters[i].1;
        assert(all.take(i + 1).last() == (name@, filter.deep_view()));
        let ghost prior = calls_view(calls@);
        if let Some(c) = plan_write(catalog, relation, name, filter, &current) {
            calls.push(c);
            assert(calls_view(calls@) =~= prior.push(c@));
        }
        assert(calls_view(calls@) =~= deletes + write_calls(
            catalog@,
            *relation,
            all.take(i + 1),
            there,
        ));
        i += 1;
    }
    assert(all.take(i as int) =~= all);
    calls
}

fn resource_of_filter(catalog: &str, relation: &RelationParts, name: &str) -> (r: Json)
    ensures
        r@ == filter_resource(catalog@, *relation, name@),
{
    let filter = fields().text("TableCatalogId", catalog).text(
        "DatabaseName",
        relation.schema.as_str(),
    ).text("TableName", relation.identifier.as_str()).text("Name", name);
    fields().with("DataCellsFilter", filter.object()).object()
}

fn granted_principals(response: &Json) -> (r: Vec<String>)
    ensures
        views(r@) == granted(response@),
{
    let items = match response.get("PrincipalResourcePermissions") {
        Some(found) => found.items(),
        None => Vec::new(),
    };
    let ghost all = items_of(member(response@, "PrincipalResourcePermissions"@));
    assert(items_view(items@) =~= all);
    let mut r: Vec<String> = Vec::new();
    let mut i: usize = 0;
    assert(views(r@) =~= principals_of(all.take(0)));
    while i < items.len()
        invariant
            i <= items.len(),
            all == items_view(items@),
            views(r@) == principals_of(all.take(i as int)),
        decreases items.len() - i,
    {
        assert(all.take(i + 1).drop_last() =~= all.take(i as int));
        assert(all.take(i + 1).last() == items@[i as int]@);
        if let Some(principal) = items[i].get("Principal") {
            if let Some(id) = principal.str_at("DataLakePrincipalIdentifier") {
                let ghost prior = views(r@);
                r.push(id.to_owned());
                assert(views(r@) =~= prior.push(id@));
            }
        }
        i += 1;
    }
    assert(all.take(i as int) =~= all);
    r
}

fn entries_of(principals: &Vec<String>, resource: &Json) -> (r: Json)
    ensures
        r@ == entries(views(principals@), resource@),
{
    let mut out: Vec<Json> = Vec::new();
    let mut i: usize = 0;
    while i < principals.len()
        invariant
            i <= principals.len(),
            out.len() == i,
            forall|j: int|
                0 <= j < i ==> (#[trigger] out@[j])@ == entry(j, principals@[j]@, resource@),
        decreases principals.len() - i,
    {
        let principal = fields().text(
            "DataLakePrincipalIdentifier",
            principals[i].as_str(),
        ).object();
        let e = fields().text("Id", decimal_of(i as i128).as_str()).with(
            "Principal",
            principal,
        ).with("Resource", resource.copy()).with(
            "Permissions",
            single(Json::Text("SELECT".to_owned())),
        ).with("PermissionsWithGrantOption", no_texts()).object();
        out.push(e);
        i += 1;
    }
    assert(items_view(out@) =~= views(principals@).map(
        |i: int, p: Seq<char>| entry(i, p, resource@),
    ));
    list(out)
}

fn add_batch(
    calls: &mut Vec<LfCall>,
    operation: &'static str,
    verb: &str,
    catalog: &str,
    name: &str,
    principals: &Vec<String>,
    resource: &Json,
)
    ensures
        calls_view(final(calls)@) == calls_view(old(calls)@) + batch_call(
            operation@,
            verb@,
            catalog@,
            name@,
            views(principals@),
            resource@,
        ),
{
    let ghost prior = calls_view(calls@);
    let ghost more = batch_call(
        operation@,
        verb@,
        catalog@,
        name@,
        views(principals@),
        resource@,
    );
    assert(views(principals@).len() == principals.len());
    if principals.len() > 0 {
        let payload = fields().text("CatalogId", catalog).with(
            "Entries",
            entries_of(principals, resource),
        ).object();
        let what = verb.to_owned().concat(" SELECT on data cell filter ").concat(name);
        let c = LfCall { operation, payload, what: Some(what) };
        calls.push(c);
        assert(more =~= seq![c@]);
        assert(calls_view(calls@) =~= prior.push(c@));
    }
    assert(calls_view(calls@) =~= prior + more);
}

/// The calls that bring the grantees of a filter to the configured ones.
pub fn plan_principals(
    catalog: &str,
    relation: &RelationParts,
    name: &str,
    filter: &FilterConfig,
    response: &Json,
) -> (r: Vec<LfCall>)
    ensures
        calls_view(r@) == principal_calls(
            catalog@,
            *relation,
            name@,
            filter.deep_view(),
            response@,
        ),
{
    let resource = resource_of_filter(catalog, relation, name);
    let current = to_set(&granted_principals(response));
    let wanted = to_set(&filter.principals);
    let mut calls: Vec<LfCall> = Vec::new();
    let ghost none = calls_view(calls@);
    assert(none =~= Seq::empty());
    let revoked = minus(&current, &wanted);
    add_batch(
        &mut calls,
        "lakeformation.batch_revoke_permissions",
        "revoke",
        catalog,
        name,
        &revoked,
        &resource,
    );
    let ghost one = batch_call(
        "lakeformation.batch_revoke_permissions"@,
        "revoke"@,
        catalog@,
        name@,
        views(revoked@),
        resource@,
    );
    assert(none + one =~= one);
    let added = minus(&wanted, &current);
    add_batch(
        &mut calls,
        "lakeformation.batch_grant_permissions",
        "grant",
        catalog,
        name,
        &added,
        &resource,
    );
    calls
}

impl AthenaOps {
    fn grant_all(
        catalog: &str,
        relation: &RelationParts,
        filters: &Vec<(String, FilterConfig)>,
        replies: &Vec<Reply>,
        at: usize,
    ) -> (r: Progress<()>)
        requires
            at <= replies.len(),
        ensures
            r@ == granted_all(
                catalog@,
                *relation,
                keyed(filters@),
                0,
                replies_view(replies@),
                at as int,
            ),
            within(r, at, replies@),
    {
        let ghost all = keyed(filters@);
        let ghost answers = replies_view(replies@);
        let mut n: usize = at;
        let mut i: usize = 0;
        while i < filters.len()
            invariant
                i <= filters.len(),
                at <= n <= replies.len(),
                all == keyed(filters@),
                answers == replies_view(replies@),
                granted_all(catalog@, *relation, all, 0, answers, at as int) == granted_all(
                    catalog@,
                    *relation,
                    all,
                    i as int,
                    answers,
                    n as int,
                ),
            decreases filters.len() - i,
        {
            let name = filters[i].0.as_str();
            let filter = &filters[i].1;
            assert(all[i as int] == (name@, filter.deep_view()));
            let payload = fields().with("Resource", resource_of_filter(catalog, relation, name));
            let (response, m) = match call(
                replies,
                n,
                "lakeformation.list_permissions",
                payload.object(),
            ) {
                Progress::Got(response, m) => (response, m),
                Progress::Ask(r) => {
                    return Progress::Ask(r);
                },
                Progress::Fail(e, m) => {
                    return Progress::Fail(e, m);
                },
            };
            let calls = plan_principals(catalog, relation, name, filter, &response);
            match Self::lf_calls(&calls, replies, m) {
                Progress::Got(_, k) => {
                    n = k;
                },
                Progress::Ask(r) => {
                    return Progress::Ask(r);
                },
                Progress::Fail(e, k) => {
                    return Progress::Fail(e, k);
                },
            }
            i += 1;
        }
        Progress::Got((), n)
    }

    /// Makes the data cell filters of a table and their grantees exactly the configured
    /// ones.
    pub fn apply_lf_grants(
        relation: &RelationParts,
        config: &LfGrantsConfig,
        replies: &Vec<Reply>,
        at: usize,
    ) -> (r: Progress<()>)
        requires
            at <= replies.len(),
        ensures
            r@ == grants_applied(*relation, *config, replies_view(replies@), at as int),
            within(r, at, replies@),
    {
        let (catalog, n) = match Self::catalog_id(opt_as_str(&relation.database), replies, at) {
            Progress::Got(Some(catalog), n) => (catalog, n),
            Progress::Got(None, n) => {
                return fail(
                    OpsErrorKind::UnexpectedResult,
                    "lf_grants: no Glue catalog id for database ".to_owned().concat(
                        debug_optional(&relation.database).as_str(),
                    ),
                    n,
                );
            },
            Progress::Ask(r) => {
                return Progress::Ask(r);
            },
            Progress::Fail(e, n) => {
                return Progress::Fail(e, n);
            },
        };
        let filters = &config.data_cell_filters.filters;
        let table = fields().text("CatalogId", catalog.as_str()).text(
            "DatabaseName",
            relation.schema.as_str(),
        ).text("Name", relation.identifier.as_str());
        let payload = fields().with("Table", table.object());
        let (listed, n) = match call(
            replies,
            n,
            "lakeformation.list_data_cells_filter",
            payload.object(),
        ) {
            Progress::Got(listed, n) => (listed, n),
            Progress::Ask(r) => {
                return Progress::Ask(r);
            },
            Progress::Fail(e, n) => {
                return Progress::Fail(e, n);
            },
        };
        let calls = plan_filters(catalog.as_str(), relation, filters, &listed);
        match Self::lf_calls(&calls, replies, n) {
            Progress::Got(_, m) => Self::grant_all(catalog.as_str(), relation, filters, replies, m),
            Progress::Ask(r) => Progress::Ask(r),
            Progress::Fail(e, m) => Progress::Fail(e, m),
        }
    }
}

} // verus!
