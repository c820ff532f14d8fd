//! What the calls to Lake Formation come to.

use crate::athena::docs::Pairs;
use crate::athena::driver::{called, unexpected, OpsErrorKind, ProgressView, ReplyView, RequestView};
use crate::athena::glue::catalog_id;
use crate::athena::glue::{text, RelationParts};
use crate::athena::grants::{
    applied, batch_call, by_name, delete_call, delete_calls, differs, entries, entry,
    existing_columns, filter_calls, filter_resource, granted, granted_all, grants_applied,
    principal_calls, principals_of, table_data, to_grant, to_revoke, write_call, write_calls,
    Existing, Filters,
};
use crate::athena::lakeformation::{
    add_call, add_table_calls, all_called, column_grouped, column_tags, columns_resource, failure,
    full_name, grouped, is_column_map, is_list_map, is_tags_config, is_text_list, is_text_map,
    lf_called, opt_groups, opt_pairs, opt_texts, remove_call, remove_table_calls, stale_tags,
    table_resource, tag, tag_calls, tag_less, tag_value, tagged, tagged_database, tagging,
    tags_json, FilterView, LfCallView, LfGrantsConfig, LfTagsConfig, TagColumnsView,
};
use crate::athena::storage::texts_among;
use crate::json::opt;
use crate::json::{
    items_of, lookup, member, or_empty, place_is_unique, text_at, FieldsView, JsonView,
};
use crate::number::decimal;
use crate::ordered::keyed;
use crate::ordered::{
    ascending, difference_holds, found, found_is_there, has_key, inserted_is_found, less,
    less_is_irreflexive, less_is_total, less_is_transitive, one_set_is_ascending, set_holds_all,
    set_of,
};
use crate::text::{debug_list, debug_option, join, trim};
use vstd::prelude::*;

verus! {

/// Whether something holds once calls were made, one after another.
pub open spec fn after_all(
    at_first: bool,
    calls: Seq<LfCallView>,
    step: spec_fn(bool, LfCallView) -> bool,
) -> bool
    decreases calls.len(),
{
    if calls.len() == 0 {
        at_first
    } else {
        step(after_all(at_first, calls.drop_last(), step), calls.last())
    }
}

proof fn one_after_another(
    at_first: bool,
    a: Seq<LfCallView>,
    b: Seq<LfCallView>,
    step: spec_fn(bool, LfCallView) -> bool,
)
    ensures
        after_all(at_first, a + b, step) == after_all(after_all(at_first, a, step), b, step),
    decreases b.len(),
{
    if b.len() == 0 {
        assert(a + b =~= a);
    } else {
        one_after_another(at_first, a, b.drop_last(), step);
        assert((a + b).drop_last() =~= a + b.drop_last());
    }
}

// ---------------------------------------------------------------------------
// Grantees
// ---------------------------------------------------------------------------

/// A permission, or an entry of a batch, names the principal.
pub open spec fn names_principal(permissions: Seq<JsonView>, principal: Seq<char>) -> bool {
    exists|i: int|
        0 <= i < permissions.len() && text_at(
            member(#[trigger] permissions[i], "Principal"@),
            "DataLakePrincipalIdentifier"@,
        ) == Some(principal)
}

/// Who may select through a filter after a call: a batch of revocations takes the right
/// from those that it names, a batch of grants gives it to them.
pub open spec fn may_select_after(principal: Seq<char>) -> spec_fn(bool, LfCallView) -> bool {
    |may: bool, c: LfCallView|
        if c.operation == "lakeformation.batch_revoke_permissions"@ {
            may && !names_principal(items_of(member(c.payload, "Entries"@)), principal)
        } else if c.operation == "lakeformation.batch_grant_permissions"@ {
            may || names_principal(items_of(member(c.payload, "Entries"@)), principal)
        } else {
            may
        }
}

proof fn principals_are_named(permissions: Seq<JsonView>, p: Seq<char>)
    ensures
        principals_of(permissions).contains(p) <==> names_principal(permissions, p),
    decreases permissions.len(),
{
    if permissions.len() > 0 {
        let init = permissions.drop_last();
        let rest = principals_of(init);
        principals_are_named(init, p);
        let last = text_at(
            member(permissions.last(), "Principal"@),
            "DataLakePrincipalIdentifier"@,
        );
        if names_principal(init, p) {
            let i = choose|i: int|
                0 <= i < init.len() && text_at(
                    member(#[trigger] init[i], "Principal"@),
                    "DataLakePrincipalIdentifier"@,
                ) == Some(p);
            assert(permissions[i] == init[i]);
        }
        if names_principal(permissions, p) {
            let i = choose|i: int|
                0 <= i < permissions.len() && text_at(
                    member(#[trigger] permissions[i], "Principal"@),
                    "DataLakePrincipalIdentifier"@,
                ) == Some(p);
            if i < init.len() {
                assert(init[i] == permissions[i]);
            }
        }
        if last is Some {
            let all = rest.push(last->0);
            assert(all[rest.len() as int] == last->0);
            if rest.contains(p) {
                let k = rest.index_of(p);
                assert(all[k] == p);
            }
            if all.contains(p) && p != last->0 {
                let k = all.index_of(p);
                assert(rest[k] == p);
            }
        }
    }
}

/// What an entry of a batch says.
pub proof fn an_entry_says(id: int, principal: Seq<char>, resource: JsonView)
    ensures
        text_at(
            member(entry(id, principal, resource), "Principal"@),
            "DataLakePrincipalIdentifier"@,
        ) == Some(principal),
        text_at(entry(id, principal, resource), "Id"@) == Some(decimal(id)),
        member(entry(id, principal, resource), "Resource"@) == resource,
        items_of(member(entry(id, principal, resource), "Permissions"@)) == seq![
            JsonView::Text("SELECT"@),
        ],
        items_of(member(entry(id, principal, resource), "PermissionsWithGrantOption"@)).len() == 0,
{
    reveal_strlit("Id");
    reveal_strlit("Principal");
    reveal_strlit("Resource");
    reveal_strlit("Permissions");
    reveal_strlit("PermissionsWithGrantOption");
    assert("Id"@.len() == 2 && "Principal"@.len() == 9 && "Resource"@.len() == 8
        && "Permissions"@.len() == 11 && "PermissionsWithGrantOption"@.len() == 26);
    let e = entry(id, principal, resource)->Object_0;
    place_is_unique(e, "Id"@, 0);
    place_is_unique(e, "Principal"@, 1);
    place_is_unique(e, "Resource"@, 2);
    place_is_unique(e, "Permissions"@, 3);
    place_is_unique(e, "PermissionsWithGrantOption"@, 4);
    place_is_unique(e[1].1->Object_0, "DataLakePrincipalIdentifier"@, 0);
}

proof fn entries_name_their_principals(
    principals: Seq<Seq<char>>,
    resource: JsonView,
    p: Seq<char>,
)
    ensures
        names_principal(items_of(entries(principals, resource)), p) <==> principals.contains(p),
{
    let all = items_of(entries(principals, resource));
    assert forall|i: int| 0 <= i < all.len() implies text_at(
        member(#[trigger] all[i], "Principal"@),
        "DataLakePrincipalIdentifier"@,
    ) == Some(principals[i]) by {
        an_entry_says(i, principals[i], resource);
    }
    if principals.contains(p) {
        let i = principals.index_of(p);
        assert(all[i] == entry(i, p, resource));
    }
}

proof fn a_batch_names_its_principals(
    operation: Seq<char>,
    verb: Seq<char>,
    catalog: Seq<char>,
    name: Seq<char>,
    principals: Seq<Seq<char>>,
    resource: JsonView,
    p: Seq<char>,
)
    requires
        principals.len() > 0,
    ensures
        ({
            let c = batch_call(operation, verb, catalog, name, principals, resource)[0];
            &&& c.operation == operation
            &&& member(c.payload, "Entries"@) == entries(principals, resource)
            &&& text_at(c.payload, "CatalogId"@) == Some(catalog)
            &&& names_principal(items_of(member(c.payload, "Entries"@)), p)
                <==> principals.contains(p)
        }),
{
    reveal_strlit("CatalogId");
    reveal_strlit("Entries");
    assert("CatalogId"@.len() == 9 && "Entries"@.len() == 7);
    let c = batch_call(operation, verb, catalog, name, principals, resource)[0];
    place_is_unique(c.payload->Object_0, "CatalogId"@, 0);
    place_is_unique(c.payload->Object_0, "Entries"@, 1);
    entries_name_their_principals(principals, resource, p);
}

/// Once the calls behind the list of permissions were made, those who may select through
/// a filter are exactly the principals that are configured, whoever might before.
pub proof fn exactly_the_configured_may_select(
    catalog: Seq<char>,
    relation: RelationParts,
    name: Seq<char>,
    filter: FilterView,
    response: JsonView,
    principal: Seq<char>,
)
    ensures
        after_all(
            names_principal(
                items_of(member(response, "PrincipalResourcePermissions"@)),
                principal,
            ),
            principal_calls(catalog, relation, name, filter, response),
            may_select_after(principal),
        ) <==> filter.principals.contains(principal),
{
    let step = may_select_after(principal);
    let resource = filter_resource(catalog, relation, name);
    let permissions = items_of(member(response, "PrincipalResourcePermissions"@));
    let before = names_principal(permissions, principal);
    let now = granted(response);
    let gone = to_revoke(now, filter.principals);
    let new = to_grant(now, filter.principals);
    let revoke = "lakeformation.batch_revoke_permissions"@;
    let grant = "lakeformation.batch_grant_permissions"@;
    reveal_strlit("lakeformation.batch_revoke_permissions");
    reveal_strlit("lakeformation.batch_grant_permissions");
    assert(revoke.len() == 38 && grant.len() == 37);
    let a = batch_call(revoke, "revoke"@, catalog, name, gone, resource);
    let b = batch_call(grant, "grant"@, catalog, name, new, resource);
    principals_are_named(permissions, principal);
    one_after_another(before, a, b, step);
    if gone.len() > 0 {
        a_batch_names_its_principals(revoke, "revoke"@, catalog, name, gone, resource, principal);
        assert(a.drop_last() =~= Seq::empty());
    }
    assert(after_all(before, a, step) == (before && !gone.contains(principal))) by {
        if gone.len() > 0 {
            assert(after_all(before, a.drop_last(), step) == before);
        }
    }
    let middle = after_all(before, a, step);
    if new.len() > 0 {
        a_batch_names_its_principals(grant, "grant"@, catalog, name, new, resource, principal);
        assert(b.drop_last() =~= Seq::empty());
    }
    assert(after_all(middle, b, step) == (middle || new.contains(principal))) by {
        if new.len() > 0 {
            assert(after_all(middle, b.drop_last(), step) == middle);
        }
    }
    set_holds_all(now, principal);
    set_holds_all(filter.principals, principal);
    difference_holds(set_of(now), set_of(filter.principals), principal);
    difference_holds(set_of(filter.principals), set_of(now), principal);
}

/// The resource of a filter names its catalog, database, table and the filter.
pub proof fn a_filter_is_addressed(catalog: Seq<char>, relation: RelationParts, name: Seq<char>)
    ensures
        ({
            let r = member(filter_resource(catalog, relation, name), "DataCellsFilter"@);
            &&& text_at(r, "TableCatalogId"@) == Some(catalog)
            &&& text_at(r, "DatabaseName"@) == Some(relation.schema@)
            &&& text_at(r, "TableName"@) == Some(relation.identifier@)
            &&& text_at(r, "Name"@) == Some(name)
        }),
{
    reveal_strlit("TableCatalogId");
    reveal_strlit("DatabaseName");
    reveal_strlit("TableName");
    reveal_strlit("Name");
    assert("TableCatalogId"@.len() == 14 && "DatabaseName"@.len() == 12 && "TableName"@.len() == 9
        && "Name"@.len() == 4);
    let outer = filter_resource(catalog, relation, name)->Object_0;
    place_is_unique(outer, "DataCellsFilter"@, 0);
    let inner = outer[0].1->Object_0;
    place_is_unique(inner, "TableCatalogId"@, 0);
    place_is_unique(inner, "DatabaseName"@, 1);
    place_is_unique(inner, "TableName"@, 2);
    place_is_unique(inner, "Name"@, 3);
}

/// Every call that changes grantees speaks of the filter, of the right to select without
/// the right to pass it on, and of somebody.
pub proof fn batches_speak_of_the_filter(
    catalog: Seq<char>,
    relation: RelationParts,
    name: Seq<char>,
    filter: FilterView,
    response: JsonView,
    i: int,
    j: int,
)
    requires
        0 <= i < principal_calls(catalog, relation, name, filter, response).len(),
    ensures
        ({
            let c = principal_calls(catalog, relation, name, filter, response)[i];
            let batch = items_of(member(c.payload, "Entries"@));
            &&& text_at(c.payload, "CatalogId"@) == Some(catalog)
            &&& batch.len() > 0
            &&& 0 <= j < batch.len() ==> {
                &&& member(batch[j], "Resource"@) == filter_resource(catalog, relation, name)
                &&& items_of(member(batch[j], "Permissions"@)) == seq![JsonView::Text("SELECT"@)]
                &&& items_of(member(batch[j], "PermissionsWithGrantOption"@)).len() == 0
                &&& text_at(batch[j], "Id"@) == Some(decimal(j))
            }
            &&& c.what == Some("revoke SELECT on data cell filter "@ + name) <==> c.operation
                == "lakeformation.batch_revoke_permissions"@
            &&& c.what == Some("grant SELECT on data cell filter "@ + name) <==> c.operation
                == "lakeformation.batch_grant_permissions"@
        }),
{
    let resource = filter_resource(catalog, relation, name);
    let now = granted(response);
    let gone = to_revoke(now, filter.principals);
    let new = to_grant(now, filter.principals);
    let revoke = "lakeformation.batch_revoke_permissions"@;
    let grant = "lakeformation.batch_grant_permissions"@;
    reveal_strlit("lakeformation.batch_revoke_permissions");
    reveal_strlit("lakeformation.batch_grant_permissions");
    reveal_strlit("revoke");
    reveal_strlit("grant");
    reveal_strlit(" SELECT on data cell filter ");
    reveal_strlit("revoke SELECT on data cell filter ");
    reveal_strlit("grant SELECT on data cell filter ");
    assert(revoke.len() == 38 && grant.len() == 37);
    assert("revoke"@ + " SELECT on data cell filter "@ =~= "revoke SELECT on data cell filter "@);
    assert("grant"@ + " SELECT on data cell filter "@ =~= "grant SELECT on data cell filter "@);
    assert(("revoke SELECT on data cell filter "@ + name)[0] == 'r');
    assert(("grant SELECT on data cell filter "@ + name)[0] == 'g');
    let c = principal_calls(catalog, relation, name, filter, response)[i];
    if i == 0 && gone.len() > 0 {
        a_batch_names_its_principals(revoke, "revoke"@, catalog, name, gone, resource, name);
        if 0 <= j < gone.len() {
            an_entry_says(j, gone[j], resource);
        }
    } else {
        a_batch_names_its_principals(grant, "grant"@, catalog, name, new, resource, name);
        if 0 <= j < new.len() {
            an_entry_says(j, new[j], resource);
        }
    }
}

// ---------------------------------------------------------------------------
// Filters
// ---------------------------------------------------------------------------

proof fn texts_among_hold(items: Seq<JsonView>, t: Seq<char>)
    ensures
        texts_among(items).contains(t) <==> items.contains(JsonView::Text(t)),
    decreases items.len(),
{
    if items.len() > 0 {
        let init = items.drop_last();
        let rest = texts_among(init);
        texts_among_hold(init, t);
        if init.contains(JsonView::Text(t)) {
            let i = init.index_of(JsonView::Text(t));
            assert(items[i] == JsonView::Text(t));
        }
        if items.contains(JsonView::Text(t)) && items.last() != JsonView::Text(t) {
            let i = items.index_of(JsonView::Text(t));
            assert(init[i] == JsonView::Text(t));
        }
        if let JsonView::Text(last) = items.last() {
            let all = rest.push(last);
            assert(all[rest.len() as int] == last);
            if rest.contains(t) {
                assert(all[rest.index_of(t)] == t);
            }
            if all.contains(t) && t != last {
                assert(rest[all.index_of(t)] == t);
            }
        }
    }
}

/// A filter is left alone just where its expression is the configured one and its columns
/// are those configured, in whatever order.
pub proof fn what_is_left_filters_as_configured(filter: FilterView, existing: JsonView)
    ensures
        !differs(filter, existing) <==> {
            &&& text_at(member(existing, "RowFilter"@), "FilterExpression"@) == Some(
                filter.row_filter,
            )
            &&& forall|c: Seq<char>| #[trigger]
                filter.column_names.contains(c) <==> items_of(
                    member(existing, "ColumnNames"@),
                ).contains(JsonView::Text(c))
        },
{
    let items = items_of(member(existing, "ColumnNames"@));
    let a = set_of(existing_columns(existing));
    let b = set_of(filter.column_names);
    if forall|c: Seq<char>| #[trigger]
        filter.column_names.contains(c) <==> items.contains(JsonView::Text(c)) {
        assert forall|t: Seq<char>| #[trigger] has_key(a, t) <==> has_key(b, t) by {
            texts_among_hold(items, t);
            set_holds_all(existing_columns(existing), t);
            set_holds_all(filter.column_names, t);
            assert(filter.column_names.contains(t) <==> items.contains(JsonView::Text(t)));
        }
        set_holds_all(existing_columns(existing), filter.row_filter);
        set_holds_all(filter.column_names, filter.row_filter);
        one_set_is_ascending(a, b);
    }
    if a == b {
        assert forall|c: Seq<char>| #[trigger]
            filter.column_names.contains(c) <==> items.contains(JsonView::Text(c)) by {
            texts_among_hold(items, c);
            set_holds_all(existing_columns(existing), c);
            set_holds_all(filter.column_names, c);
        }
    }
}

/// A filter is written with the place of its table, its name, its expression and columns.
pub proof fn a_filter_is_written(
    catalog: Seq<char>,
    relation: RelationParts,
    name: Seq<char>,
    filter: FilterView,
)
    ensures
        ({
            let data = table_data(catalog, relation, name, filter);
            &&& text_at(data, "TableCatalogId"@) == Some(catalog)
            &&& text_at(data, "DatabaseName"@) == Some(relation.schema@)
            &&& text_at(data, "TableName"@) == Some(relation.identifier@)
            &&& text_at(data, "Name"@) == Some(name)
            &&& text_at(member(data, "RowFilter"@), "FilterExpression"@) == Some(filter.row_filter)
            &&& items_of(member(data, "ColumnNames"@)).len() == filter.column_names.len()
            &&& forall|k: int|
                0 <= k < filter.column_names.len() ==> (#[trigger] items_of(
                    member(data, "ColumnNames"@),
                )[k]) == JsonView::Text(filter.column_names[k])
        }),
{
    reveal_strlit("TableCatalogId");
    reveal_strlit("DatabaseName");
    reveal_strlit("TableName");
    reveal_strlit("Name");
    reveal_strlit("RowFilter");
    reveal_strlit("ColumnNames");
    assert("TableCatalogId"@.len() == 14 && "DatabaseName"@.len() == 12 && "TableName"@.len() == 9
        && "Name"@.len() == 4 && "RowFilter"@.len() == 9 && "ColumnNames"@.len() == 11);
    assert("TableName"@[0] == 'T' && "RowFilter"@[0] == 'R');
    let data = table_data(catalog, relation, name, filter)->Object_0;
    place_is_unique(data, "TableCatalogId"@, 0);
    place_is_unique(data, "DatabaseName"@, 1);
    place_is_unique(data, "TableName"@, 2);
    place_is_unique(data, "Name"@, 3);
    place_is_unique(data, "RowFilter"@, 4);
    place_is_unique(data, "ColumnNames"@, 5);
    place_is_unique(data[4].1->Object_0, "FilterExpression"@, 0);
}

proof fn named_filters_ascend(filters: Seq<JsonView>)
    ensures
        ascending(by_name(filters)),
    decreases filters.len(),
{
    if filters.len() > 0 {
        let init = filters.drop_last();
        named_filters_ascend(init);
        if let Some(name) = text_at(filters.last(), "Name"@) {
            inserted_is_found(by_name(init), name, filters.last(), name);
        }
    }
}

/// Of the filters that are listed, each name stands for the last filter that has it; what
/// has no name is passed over.
pub proof fn listed_filters_go_by_name(filters: Seq<JsonView>, one: JsonView, name: Seq<char>)
    ensures
        found(by_name(Seq::empty()), name) is None,
        text_at(one, "Name"@) == Some(name) ==> found(by_name(filters.push(one)), name) == Some(
            one,
        ),
        text_at(one, "Name"@) != Some(name) ==> found(by_name(filters.push(one)), name) == found(
            by_name(filters),
            name,
        ),
{
    assert(filters.push(one).drop_last() =~= filters);
    named_filters_ascend(filters);
    if let Some(own) = text_at(one, "Name"@) {
        inserted_is_found(by_name(filters), own, one, name);
    }
}

// ---------------------------------------------------------------------------
// Tags of columns
// ---------------------------------------------------------------------------

/// The first value of a tag; nothing where it has none.
pub open spec fn first_value_of(t: JsonView) -> Seq<char> {
    let values = items_of(member(t, "TagValues"@));
    if values.len() > 0 {
        match values[0] {
            JsonView::Text(v) => v,
            _ => Seq::empty(),
        }
    } else {
        Seq::empty()
    }
}

/// A tag of the list has this key and this first value.
pub open spec fn has_tag(tags: Seq<JsonView>, key: Seq<char>, value: Seq<char>) -> bool {
    exists|j: int|
        0 <= j < tags.len() && or_empty(text_at(#[trigger] tags[j], "TagKey"@)) == key
            && first_value_of(tags[j]) == value
}

/// A column of the list carries the tag.
pub open spec fn column_has_tag(
    columns: Seq<JsonView>,
    column: Seq<char>,
    key: Seq<char>,
    value: Seq<char>,
) -> bool {
    exists|i: int|
        0 <= i < columns.len() && or_empty(text_at(#[trigger] columns[i], "Name"@)) == column
            && has_tag(items_of(member(columns[i], "LFTags"@)), key, value)
}

/// The call speaks of the column and of the tag.
pub open spec fn concerns_column(
    c: LfCallView,
    column: Seq<char>,
    key: Seq<char>,
    value: Seq<char>,
) -> bool {
    let resource = member(member(c.payload, "Resource"@), "TableWithColumns"@);
    items_of(member(resource, "ColumnNames"@)).contains(JsonView::Text(column)) && has_tag(
        items_of(member(c.payload, "LFTags"@)),
        key,
        value,
    )
}

/// Whether a column carries a tag after a call.
pub open spec fn column_tagged_after(
    column: Seq<char>,
    key: Seq<char>,
    value: Seq<char>,
) -> spec_fn(bool, LfCallView) -> bool {
    |on: bool, c: LfCallView|
        if c.operation == "lakeformation.remove_lf_tags_from_resource"@ {
            on && !concerns_column(c, column, key, value)
        } else if c.operation == "lakeformation.add_lf_tags_to_resource"@ {
            on || concerns_column(c, column, key, value)
        } else {
            on
        }
}

/// A group of columns that holds the column under the tag.
pub open spec fn in_group(
    groups: Seq<TagColumnsView>,
    column: Seq<char>,
    key: Seq<char>,
    value: Seq<char>,
) -> bool {
    exists|i: int|
        0 <= i < groups.len() && (#[trigger] groups[i]).key == key && groups[i].value == value
            && groups[i].columns.contains(column)
}

proof fn one_group_more(
    groups: Seq<TagColumnsView>,
    g: TagColumnsView,
    column: Seq<char>,
    key: Seq<char>,
    value: Seq<char>,
)
    ensures
        in_group(groups.push(g), column, key, value) <==> in_group(groups, column, key, value) || (
        g.key == key && g.value == value && g.columns.contains(column)),
{
    let all = groups.push(g);
    assert(all[groups.len() as int] == g);
    if in_group(groups, column, key, value) {
        let i = choose|i: int|
            0 <= i < groups.len() && (#[trigger] groups[i]).key == key && groups[i].value == value
                && groups[i].columns.contains(column);
        assert(all[i] == groups[i]);
    }
    if in_group(all, column, key, value) {
        let i = choose|i: int|
            0 <= i < all.len() && (#[trigger] all[i]).key == key && all[i].value == value
                && all[i].columns.contains(column);
        if i < groups.len() {
            assert(groups[i] == all[i]);
        }
    }
}

proof fn one_text_more(texts: Seq<Seq<char>>, c: Seq<char>, t: Seq<char>)
    ensures
        texts.push(c).contains(t) <==> texts.contains(t) || t == c,
{
    let all = texts.push(c);
    assert(all[texts.len() as int] == c);
    if texts.contains(t) {
        assert(all[texts.index_of(t)] == t);
    }
    if all.contains(t) && t != c {
        assert(texts[all.index_of(t)] == t);
    }
}

proof fn grouping_adds(
    groups: Seq<TagColumnsView>,
    k: Seq<char>,
    v: Seq<char>,
    c: Seq<char>,
    column: Seq<char>,
    key: Seq<char>,
    value: Seq<char>,
)
    ensures
        in_group(grouped(groups, k, v, c), column, key, value) <==> in_group(
            groups,
            column,
            key,
            value,
        ) || (column == c && key == k && value == v),
    decreases groups.len(),
{
    let none = Seq::<Seq<char>>::empty();
    one_text_more(none, c, column);
    assert(none.push(c) =~= seq![c]);
    let new = TagColumnsView { key: k, value: v, columns: seq![c] };
    if groups.len() == 0 {
        one_group_more(groups, new, column, key, value);
        assert(groups.push(new) =~= grouped(groups, k, v, c));
    } else {
        let init = groups.drop_last();
        let last = groups.last();
        one_group_more(init, last, column, key, value);
        assert(init.push(last) =~= groups);
        if last.key == k && last.value == v {
            let wider = TagColumnsView { key: k, value: v, columns: last.columns.push(c) };
            one_text_more(last.columns, c, column);
            one_group_more(init, wider, column, key, value);
            assert(groups.update(groups.len() - 1, wider) =~= init.push(wider));
        } else if tag_less((last.key, last.value), (k, v)) {
            one_group_more(groups, new, column, key, value);
        } else {
            grouping_adds(init, k, v, c, column, key, value);
            one_group_more(grouped(init, k, v, c), last, column, key, value);
        }
    }
}

proof fn one_tag_more(tags: Seq<JsonView>, key: Seq<char>, value: Seq<char>)
    requires
        tags.len() > 0,
    ensures
        has_tag(tags, key, value) <==> has_tag(tags.drop_last(), key, value) || (or_empty(
            text_at(tags.last(), "TagKey"@),
        ) == key && first_value_of(tags.last()) == value),
{
    let init = tags.drop_last();
    assert(tags[tags.len() - 1] == tags.last());
    if has_tag(init, key, value) {
        let j = choose|j: int|
            0 <= j < init.len() && or_empty(text_at(#[trigger] init[j], "TagKey"@)) == key
                && first_value_of(init[j]) == value;
        assert(tags[j] == init[j]);
    }
    if has_tag(tags, key, value) {
        let j = choose|j: int|
            0 <= j < tags.len() && or_empty(text_at(#[trigger] tags[j], "TagKey"@)) == key
                && first_value_of(tags[j]) == value;
        if j < init.len() {
            assert(init[j] == tags[j]);
        }
    }
}

proof fn a_column_is_grouped(
    groups: Seq<TagColumnsView>,
    c: Seq<char>,
    tags: Seq<JsonView>,
    inherited: Seq<Seq<char>>,
    column: Seq<char>,
    key: Seq<char>,
    value: Seq<char>,
)
    ensures
        in_group(column_grouped(groups, c, tags, inherited), column, key, value) <==> in_group(
            groups,
            column,
            key,
            value,
        ) || (column == c && !inherited.contains(key) && has_tag(tags, key, value)),
    decreases tags.len(),
{
    if tags.len() > 0 {
        let init = tags.drop_last();
        let before = column_grouped(groups, c, init, inherited);
        let k = or_empty(text_at(tags.last(), "TagKey"@));
        a_column_is_grouped(groups, c, init, inherited, column, key, value);
        one_tag_more(tags, key, value);
        assert(tag_value(tags.last()) == first_value_of(tags.last()));
        grouping_adds(before, k, tag_value(tags.last()), c, column, key, value);
    }
}

proof fn columns_are_grouped(
    columns: Seq<JsonView>,
    inherited: Seq<Seq<char>>,
    column: Seq<char>,
    key: Seq<char>,
    value: Seq<char>,
)
    ensures
        in_group(column_tags(columns, inherited), column, key, value) <==> !inherited.contains(key)
            && column_has_tag(columns, column, key, value),
    decreases columns.len(),
{
    if columns.len() > 0 {
        let init = columns.drop_last();
        let last = columns.last();
        columns_are_grouped(init, inherited, column, key, value);
        a_column_is_grouped(
            column_tags(init, inherited),
            or_empty(text_at(last, "Name"@)),
            items_of(member(last, "LFTags"@)),
            inherited,
            column,
            key,
            value,
        );
        assert(columns[columns.len() - 1] == last);
        if column_has_tag(init, column, key, value) {
            let i = choose|i: int|
                0 <= i < init.len() && or_empty(text_at(#[trigger] init[i], "Name"@)) == column
                    && has_tag(items_of(member(init[i], "LFTags"@)), key, value);
            assert(columns[i] == init[i]);
        }
        if column_has_tag(columns, column, key, value) {
            let i = choose|i: int|
                0 <= i < columns.len() && or_empty(text_at(#[trigger] columns[i], "Name"@))
                    == column && has_tag(items_of(member(columns[i], "LFTags"@)), key, value);
            if i < init.len() {
                assert(init[i] == columns[i]);
            }
        }
    }
}

/// A tag holds its key and its one value.
pub proof fn a_tag_says(key: Seq<char>, value: Seq<char>)
    ensures
        text_at(tag(key, value), "TagKey"@) == Some(key),
        items_of(member(tag(key, value), "TagValues"@)) == seq![JsonView::Text(value)],
        first_value_of(tag(key, value)) == value,
{
    reveal_strlit("TagKey");
    reveal_strlit("TagValues");
    assert("TagKey"@.len() == 6 && "TagValues"@.len() == 9);
    let t = tag(key, value)->Object_0;
    place_is_unique(t, "TagKey"@, 0);
    place_is_unique(t, "TagValues"@, 1);
}

proof fn a_tagging_says(resource: JsonView, tags: JsonView)
    ensures
        member(tagging(resource, tags), "Resource"@) == resource,
        member(tagging(resource, tags), "LFTags"@) == tags,
{
    reveal_strlit("Resource");
    reveal_strlit("LFTags");
    assert("Resource"@.len() == 8 && "LFTags"@.len() == 6);
    let t = tagging(resource, tags)->Object_0;
    place_is_unique(t, "Resource"@, 0);
    place_is_unique(t, "LFTags"@, 1);
}

/// A table is addressed by its database and its name, and columns by those and theirs.
pub proof fn tables_and_columns_are_addressed(relation: RelationParts, columns: Seq<Seq<char>>)
    ensures
        ({
            let t = member(table_resource(relation), "Table"@);
            &&& lookup(table_resource(relation), "Table"@) is Some
            &&& lookup(table_resource(relation), "TableWithColumns"@) is None
            &&& text_at(t, "DatabaseName"@) == Some(relation.schema@)
            &&& text_at(t, "Name"@) == Some(relation.identifier@)
        }),
        ({
            let r = columns_resource(relation, columns);
            let t = member(r, "TableWithColumns"@);
            &&& lookup(r, "Table"@) is None
            &&& text_at(t, "DatabaseName"@) == Some(relation.schema@)
            &&& text_at(t, "Name"@) == Some(relation.identifier@)
            &&& items_of(member(t, "ColumnNames"@)).len() == columns.len()
            &&& forall|k: int|
                0 <= k < columns.len() ==> (#[trigger] items_of(member(t, "ColumnNames"@))[k])
                    == JsonView::Text(columns[k])
        }),
{
    reveal_strlit("Table");
    reveal_strlit("TableWithColumns");
    reveal_strlit("DatabaseName");
    reveal_strlit("Name");
    reveal_strlit("ColumnNames");
    assert("Table"@.len() == 5 && "TableWithColumns"@.len() == 16 && "DatabaseName"@.len() == 12
        && "Name"@.len() == 4 && "ColumnNames"@.len() == 11);
    let a = table_resource(relation)->Object_0;
    place_is_unique(a, "Table"@, 0);
    place_is_unique(a, "TableWithColumns"@, 1);
    place_is_unique(a[0].1->Object_0, "DatabaseName"@, 0);
    place_is_unique(a[0].1->Object_0, "Name"@, 1);
    let b = columns_resource(relation, columns)->Object_0;
    place_is_unique(b, "TableWithColumns"@, 0);
    place_is_unique(b, "Table"@, 1);
    place_is_unique(b[0].1->Object_0, "DatabaseName"@, 0);
    place_is_unique(b[0].1->Object_0, "Name"@, 1);
    place_is_unique(b[0].1->Object_0, "ColumnNames"@, 2);
}

proof fn a_group_is_concerned(
    relation: RelationParts,
    g: TagColumnsView,
    column: Seq<char>,
    key: Seq<char>,
    value: Seq<char>,
)
    ensures
        concerns_column(remove_call(relation, g), column, key, value) <==> g.key == key && g.value
            == value && g.columns.contains(column),
        concerns_column(add_call(relation, g), column, key, value) <==> g.key == key && g.value
            == value && g.columns.contains(column),
        !concerns_table(remove_call(relation, g), key),
        !concerns_table(add_call(relation, g), key),
{
    let tags = seq![tag(g.key, g.value)];
    let resource = columns_resource(relation, g.columns);
    a_tag_says(g.key, g.value);
    a_tagging_says(resource, JsonView::List(tags));
    tables_and_columns_are_addressed(relation, g.columns);
    one_tag_more(tags, key, value);
    assert(tags.drop_last() =~= Seq::empty());
    let named = items_of(member(member(resource, "TableWithColumns"@), "ColumnNames"@));
    if g.columns.contains(column) {
        let k = g.columns.index_of(column);
        assert(named[k] == JsonView::Text(column));
    }
    if named.contains(JsonView::Text(column)) {
        let k = named.index_of(JsonView::Text(column));
        assert(named[k] == JsonView::Text(g.columns[k]));
        assert(g.columns[k] == column);
    }
}

proof fn tag_operations_differ()
    ensures
        "lakeformation.remove_lf_tags_from_resource"@
            != "lakeformation.add_lf_tags_to_resource"@,
{
    reveal_strlit("lakeformation.remove_lf_tags_from_resource");
    reveal_strlit("lakeformation.add_lf_tags_to_resource");
    assert("lakeformation.remove_lf_tags_from_resource"@.len() == 42);
    assert("lakeformation.add_lf_tags_to_resource"@.len() == 37);
}

proof fn groups_are_removed(
    on: bool,
    relation: RelationParts,
    groups: Seq<TagColumnsView>,
    column: Seq<char>,
    key: Seq<char>,
    value: Seq<char>,
)
    ensures
        after_all(
            on,
            groups.map_values(|g: TagColumnsView| remove_call(relation, g)),
            column_tagged_after(column, key, value),
        ) == (on && !in_group(groups, column, key, value)),
        after_all(
            on,
            groups.map_values(|g: TagColumnsView| remove_call(relation, g)),
            table_tagged_after(key),
        ) == on,
    decreases groups.len(),
{
    let f = |g: TagColumnsView| remove_call(relation, g);
    if groups.len() > 0 {
        let init = groups.drop_last();
        groups_are_removed(on, relation, init, column, key, value);
        assert(groups.map_values(f).drop_last() =~= init.map_values(f));
        assert(groups.map_values(f).last() == remove_call(relation, groups.last()));
        a_group_is_concerned(relation, groups.last(), column, key, value);
        one_group_more(init, groups.last(), column, key, value);
        assert(init.push(groups.last()) =~= groups);
    }
}

proof fn groups_are_added(
    on: bool,
    relation: RelationParts,
    groups: Seq<TagColumnsView>,
    column: Seq<char>,
    key: Seq<char>,
    value: Seq<char>,
)
    ensures
        after_all(
            on,
            groups.map_values(|g: TagColumnsView| add_call(relation, g)),
            column_tagged_after(column, key, value),
        ) == (on || in_group(groups, column, key, value)),
        after_all(
            on,
            groups.map_values(|g: TagColumnsView| add_call(relation, g)),
            table_tagged_after(key),
        ) == on,
    decreases groups.len(),
{
    let f = |g: TagColumnsView| add_call(relation, g);
    tag_operations_differ();
    if groups.len() > 0 {
        let init = groups.drop_last();
        groups_are_added(on, relation, init, column, key, value);
        assert(groups.map_values(f).drop_last() =~= init.map_values(f));
        assert(groups.map_values(f).last() == add_call(relation, groups.last()));
        a_group_is_concerned(relation, groups.last(), column, key, value);
        one_group_more(init, groups.last(), column, key, value);
        assert(init.push(groups.last()) =~= groups);
    }
}

// ---------------------------------------------------------------------------
// Tags of tables
// ---------------------------------------------------------------------------

/// A tag of the list has this key.
pub open spec fn has_tag_key(tags: Seq<JsonView>, key: Seq<char>) -> bool {
    exists|j: int| 0 <= j < tags.len() && or_empty(text_at(#[trigger] tags[j], "TagKey"@)) == key
}

/// The call speaks of the table and of a tag with this key.
pub open spec fn concerns_table(c: LfCallView, key: Seq<char>) -> bool {
    lookup(member(c.payload, "Resource"@), "Table"@) is Some && has_tag_key(
        items_of(member(c.payload, "LFTags"@)),
        key,
    )
}

/// Whether a table carries a tag with this key after a call.
pub open spec fn table_tagged_after(key: Seq<char>) -> spec_fn(bool, LfCallView) -> bool {
    |on: bool, c: LfCallView|
        if c.operation == "lakeformation.remove_lf_tags_from_resource"@ {
            on && !concerns_table(c, key)
        } else if c.operation == "lakeformation.add_lf_tags_to_resource"@ {
            on || concerns_table(c, key)
        } else {
            on
        }
}

proof fn one_tag_key_more(tags: Seq<JsonView>, t: JsonView, key: Seq<char>)
    ensures
        has_tag_key(tags.push(t), key) <==> has_tag_key(tags, key) || or_empty(
            text_at(t, "TagKey"@),
        ) == key,
{
    let all = tags.push(t);
    assert(all[tags.len() as int] == t);
    if has_tag_key(tags, key) {
        let j = choose|j: int|
            0 <= j < tags.len() && or_empty(text_at(#[trigger] tags[j], "TagKey"@)) == key;
        assert(all[j] == tags[j]);
    }
    if has_tag_key(all, key) {
        let j = choose|j: int|
            0 <= j < all.len() && or_empty(text_at(#[trigger] all[j], "TagKey"@)) == key;
        if j < tags.len() {
            assert(tags[j] == all[j]);
        }
    }
}

proof fn stale_tags_have_keys(
    tags: Seq<JsonView>,
    configured: Pairs,
    inherited: Seq<Seq<char>>,
    key: Seq<char>,
)
    ensures
        has_tag_key(stale_tags(tags, configured, inherited), key) <==> has_tag_key(tags, key)
            && !has_key(configured, key) && !inherited.contains(key),
    decreases tags.len(),
{
    if tags.len() > 0 {
        let init = tags.drop_last();
        let t = tags.last();
        let rest = stale_tags(init, configured, inherited);
        stale_tags_have_keys(init, configured, inherited, key);
        one_tag_key_more(init, t, key);
        assert(init.push(t) =~= tags);
        let copy = JsonView::Object(
            Seq::<(Seq<char>, JsonView)>::empty().push(("TagKey"@, member(t, "TagKey"@))).push(
                ("TagValues"@, member(t, "TagValues"@)),
            ),
        );
        place_is_unique(copy->Object_0, "TagKey"@, 0);
        one_tag_key_more(rest, copy, key);
    }
}

proof fn configured_tags_have_keys(configured: Pairs, key: Seq<char>)
    ensures
        has_tag_key(items_of(tags_json(configured)), key) <==> has_key(configured, key),
{
    let tags = items_of(tags_json(configured));
    assert forall|j: int| 0 <= j < tags.len() implies or_empty(
        text_at(#[trigger] tags[j], "TagKey"@),
    ) == configured[j].0 by {
        a_tag_says(configured[j].0, configured[j].1);
    }
    if has_key(configured, key) {
        let j = choose|j: int| 0 <= j < configured.len() && (#[trigger] configured[j]).0 == key;
        assert(or_empty(text_at(tags[j], "TagKey"@)) == key);
    }
}

proof fn a_table_is_tagged(
    on: bool,
    relation: RelationParts,
    stale: Seq<JsonView>,
    configured: Pairs,
    column: Seq<char>,
    key: Seq<char>,
    value: Seq<char>,
)
    ensures
        after_all(on, remove_table_calls(relation, stale), table_tagged_after(key)) == (on
            && !has_tag_key(stale, key)),
        after_all(on, add_table_calls(relation, configured), table_tagged_after(key)) == (on
            || has_key(configured, key)),
        after_all(
            on,
            remove_table_calls(relation, stale),
            column_tagged_after(column, key, value),
        ) == on,
        after_all(
            on,
            add_table_calls(relation, configured),
            column_tagged_after(column, key, value),
        ) == on,
{
    tag_operations_differ();
    tables_and_columns_are_addressed(relation, Seq::empty());
    configured_tags_have_keys(configured, key);
    a_tagging_says(table_resource(relation), JsonView::List(stale));
    a_tagging_says(table_resource(relation), tags_json(configured));
    let a = remove_table_calls(relation, stale);
    let b = add_table_calls(relation, configured);
    if stale.len() > 0 {
        assert(a.drop_last() =~= Seq::empty());
        assert(after_all(on, a.drop_last(), table_tagged_after(key)) == on);
        assert(after_all(on, a.drop_last(), column_tagged_after(column, key, value)) == on);
    }
    if configured.len() > 0 {
        assert(b.drop_last() =~= Seq::empty());
        assert(after_all(on, b.drop_last(), table_tagged_after(key)) == on);
        assert(after_all(on, b.drop_last(), column_tagged_after(column, key, value)) == on);
    }
}

/// Once the calls were made, a column carries the tags that it inherits and had, and those
/// that are configured for it; a table the keys that it inherits and had, and those that
/// are configured. Nothing else is left.
pub proof fn tags_become_configured(
    relation: RelationParts,
    config: LfTagsConfig,
    existing: JsonView,
    column: Seq<char>,
    key: Seq<char>,
    value: Seq<char>,
)
    ensures
        after_all(
            column_has_tag(items_of(member(existing, "LFTagsOnColumns"@)), column, key, value),
            tag_calls(relation, config, existing),
            column_tagged_after(column, key, value),
        ) <==> {
            ||| opt_texts(config.inherited_tags).contains(key) && column_has_tag(
                items_of(member(existing, "LFTagsOnColumns"@)),
                column,
                key,
                value,
            )
            ||| in_group(opt_groups(config.tags_columns), column, key, value)
        },
        after_all(
            has_tag_key(items_of(member(existing, "LFTagsOnTable"@)), key),
            tag_calls(relation, config, existing),
            table_tagged_after(key),
        ) <==> {
            ||| opt_texts(config.inherited_tags).contains(key) && has_tag_key(
                items_of(member(existing, "LFTagsOnTable"@)),
                key,
            )
            ||| has_key(opt_pairs(config.tags), key)
        },
{
    let inherited = opt_texts(config.inherited_tags);
    let configured = opt_pairs(config.tags);
    let columns = items_of(member(existing, "LFTagsOnColumns"@));
    let tags = items_of(member(existing, "LFTagsOnTable"@));
    let gone = column_tags(columns, inherited);
    let stale = stale_tags(tags, configured, inherited);
    let new = opt_groups(config.tags_columns);
    let a = gone.map_values(|g: TagColumnsView| remove_call(relation, g));
    let b = remove_table_calls(relation, stale);
    let c = add_table_calls(relation, configured);
    let d = new.map_values(|g: TagColumnsView| add_call(relation, g));
    columns_are_grouped(columns, inherited, column, key, value);
    stale_tags_have_keys(tags, configured, inherited, key);
    {
        let step = column_tagged_after(column, key, value);
        let x0 = column_has_tag(columns, column, key, value);
        one_after_another(x0, a + b + c, d, step);
        one_after_another(x0, a + b, c, step);
        one_after_another(x0, a, b, step);
        let x1 = after_all(x0, a, step);
        let x2 = after_all(x1, b, step);
        let x3 = after_all(x2, c, step);
        groups_are_removed(x0, relation, gone, column, key, value);
        a_table_is_tagged(x1, relation, stale, configured, column, key, value);
        a_table_is_tagged(x2, relation, stale, configured, column, key, value);
        groups_are_added(x3, relation, new, column, key, value);
    }
    {
        let step = table_tagged_after(key);
        let x0 = has_tag_key(tags, key);
        one_after_another(x0, a + b + c, d, step);
        one_after_another(x0, a + b, c, step);
        one_after_another(x0, a, b, step);
        let x1 = after_all(x0, a, step);
        let x2 = after_all(x1, b, step);
        let x3 = after_all(x2, c, step);
        groups_are_removed(x0, relation, gone, column, key, value);
        a_table_is_tagged(x1, relation, stale, configured, column, key, value);
        a_table_is_tagged(x2, relation, stale, configured, column, key, value);
        groups_are_added(x3, relation, new, column, key, value);
    }
}

/// Every configured tag is added to the table with its value.
pub proof fn configured_tags_keep_their_values(relation: RelationParts, configured: Pairs, j: int)
    requires
        0 <= j < configured.len(),
    ensures
        ({
            let c = add_table_calls(relation, configured)[0];
            let t = items_of(member(c.payload, "LFTags"@))[j];
            &&& add_table_calls(relation, configured).len() == 1
            &&& c.operation == "lakeformation.add_lf_tags_to_resource"@
            &&& text_at(t, "TagKey"@) == Some(configured[j].0)
            &&& items_of(member(t, "TagValues"@)) == seq![JsonView::Text(configured[j].1)]
        }),
{
    a_tagging_says(table_resource(relation), tags_json(configured));
    a_tag_says(configured[j].0, configured[j].1);
}

// ---------------------------------------------------------------------------
// Conversations with Lake Formation
// ---------------------------------------------------------------------------

/// A call succeeds where nothing in its answer failed, or where nothing is said of its
/// failures; otherwise every failure is told, by its tag and its message.
pub proof fn failures_are_told(c: LfCallView, replies: Seq<ReplyView>, at: int)
    requires
        0 <= at <= replies.len(),
    ensures
        at == replies.len() ==> lf_called(c, replies, at) == ProgressView::<JsonView>::Ask(
            RequestView { operation: c.operation, payload: c.payload },
        ),
        at < replies.len() ==> (replies[at] matches Ok(response) ==> {
            let failed = items_of(member(response, "Failures"@));
            &&& c.what is None || failed.len() == 0 ==> lf_called(c, replies, at)
                == ProgressView::Got(response, at + 1)
            &&& failed.len() > 0 ==> (c.what matches Some(what) ==> (lf_called(c, replies, at)
                matches ProgressView::Fail(e, n) && n == at + 1 && e.kind
                == OpsErrorKind::UnexpectedResult && e.message == "Failed to "@ + what + ": "@
                + join(failed.map_values(|f: JsonView| failure(f)), "; "@)))
        }),
        at < replies.len() ==> (replies[at] matches Err(e) ==> lf_called(c, replies, at)
            == ProgressView::<JsonView>::Fail(e, at + 1)),
{
}

/// What is told of a failure.
pub proof fn a_failure_names_its_tag(f: JsonView)
    ensures
        failure(f) == trim(
            or_empty(text_at(member(f, "LFTag"@), "TagKey"@)) + seq![' '] + or_empty(
                text_at(member(f, "Error"@), "ErrorMessage"@),
            ),
        ),
{
    reveal_strlit(" ");
    assert(" "@ =~= seq![' ']);
}

/// Calls are made one after another, each once the one before succeeded.
pub proof fn calls_are_made_in_turn(
    calls: Seq<LfCallView>,
    i: int,
    replies: Seq<ReplyView>,
    at: int,
)
    requires
        0 <= i <= calls.len(),
    ensures
        i == calls.len() ==> all_called(calls, i, replies, at) == ProgressView::Got((), at),
        i < calls.len() ==> (match lf_called(calls[i], replies, at) {
            ProgressView::Ask(r) => all_called(calls, i, replies, at) == ProgressView::<()>::Ask(r),
            ProgressView::Fail(e, n) => all_called(calls, i, replies, at)
                == ProgressView::<()>::Fail(e, n),
            ProgressView::Got(_, n) => all_called(calls, i, replies, at) == all_called(
                calls,
                i + 1,
                replies,
                n,
            ),
        }),
{
}

/// The tags of a table are read before any is changed.
pub proof fn tags_are_read_first(
    relation: RelationParts,
    config: LfTagsConfig,
    replies: Seq<ReplyView>,
    at: int,
)
    requires
        0 <= at <= replies.len(),
    ensures
        at == replies.len() ==> (tagged(relation, config, replies, at) matches ProgressView::Ask(r)
            && r.operation == "lakeformation.get_resource_lf_tags"@ && member(
            r.payload,
            "Resource"@,
        ) == table_resource(relation)),
        at < replies.len() ==> (replies[at] matches Ok(existing) ==> tagged(
            relation,
            config,
            replies,
            at,
        ) == all_called(tag_calls(relation, config, existing), 0, replies, at + 1)),
{
    let f = Seq::<(Seq<char>, JsonView)>::empty().push(("Resource"@, table_resource(relation)));
    place_is_unique(f, "Resource"@, 0);
}

/// A database gets all of its tags by one call, and none where it has no tags.
pub proof fn databases_get_their_tags(
    schema: Seq<char>,
    tags: Pairs,
    replies: Seq<ReplyView>,
    at: int,
    j: int,
)
    requires
        0 <= at <= replies.len(),
    ensures
        tags.len() == 0 ==> tagged_database(schema, tags, replies, at) == ProgressView::Got((), at),
        tags.len() > 0 && at == replies.len() ==> (tagged_database(schema, tags, replies, at)
            matches ProgressView::Ask(r) && {
            let listed = items_of(member(r.payload, "LFTags"@));
            &&& r.operation == "lakeformation.add_lf_tags_to_resource"@
            &&& text_at(member(member(r.payload, "Resource"@), "Database"@), "Name"@) == Some(
                schema,
            )
            &&& listed.len() == tags.len()
            &&& 0 <= j < tags.len() ==> text_at(listed[j], "TagKey"@) == Some(tags[j].0)
                && first_value_of(listed[j]) == tags[j].1
        }),
        tags.len() > 0 && at < replies.len() ==> (replies[at] matches Ok(response) ==> (items_of(
            member(response, "Failures"@),
        ).len() == 0 ==> tagged_database(schema, tags, replies, at) == ProgressView::Got(
            (),
            at + 1,
        ))),
{
    let inner = Seq::<(Seq<char>, JsonView)>::empty().push(("Name"@, text(schema)));
    let outer = Seq::<(Seq<char>, JsonView)>::empty().push(("Database"@, JsonView::Object(inner)));
    place_is_unique(inner, "Name"@, 0);
    place_is_unique(outer, "Database"@, 0);
    a_tagging_says(JsonView::Object(outer), tags_json(tags));
    if 0 <= j < tags.len() {
        a_tag_says(tags[j].0, tags[j].1);
    }
}

/// The filters of a table are listed and brought to what is configured, then, filter by
/// filter, its permissions are listed and brought to what is configured.
pub proof fn filters_come_before_grantees(
    catalog: Seq<char>,
    relation: RelationParts,
    filters: Filters,
    i: int,
    replies: Seq<ReplyView>,
    at: int,
)
    requires
        0 <= at <= replies.len(),
        0 <= i <= filters.len(),
    ensures
        at == replies.len() ==> (applied(catalog, relation, filters, replies, at)
            matches ProgressView::Ask(r) && {
            let table = member(r.payload, "Table"@);
            &&& r.operation == "lakeformation.list_data_cells_filter"@
            &&& text_at(table, "CatalogId"@) == Some(catalog)
            &&& text_at(table, "DatabaseName"@) == Some(relation.schema@)
            &&& text_at(table, "Name"@) == Some(relation.identifier@)
        }),
        at < replies.len() ==> (replies[at] matches Ok(listed) ==> (match all_called(
            filter_calls(catalog, relation, filters, listed),
            0,
            replies,
            at + 1,
        ) {
            ProgressView::Ask(r) => applied(catalog, relation, filters, replies, at)
                == ProgressView::<()>::Ask(r),
            ProgressView::Fail(e, n) => applied(catalog, relation, filters, replies, at)
                == ProgressView::<()>::Fail(e, n),
            ProgressView::Got(_, n) => applied(catalog, relation, filters, replies, at)
                == granted_all(catalog, relation, filters, 0, replies, n),
        })),
        i == filters.len() ==> granted_all(catalog, relation, filters, i, replies, at)
            == ProgressView::Got((), at),
        i < filters.len() && at == replies.len() ==> (granted_all(
            catalog,
            relation,
            filters,
            i,
            replies,
            at,
        ) matches ProgressView::Ask(r) && r.operation == "lakeformation.list_permissions"@
            && member(r.payload, "Resource"@) == filter_resource(catalog, relation, filters[i].0)),
        i < filters.len() && at < replies.len() ==> (replies[at] matches Ok(response) ==> (
        match all_called(
            principal_calls(catalog, relation, filters[i].0, filters[i].1, response),
            0,
            replies,
            at + 1,
        ) {
            ProgressView::Ask(r) => granted_all(catalog, relation, filters, i, replies, at)
                == ProgressView::<()>::Ask(r),
            ProgressView::Fail(e, n) => granted_all(catalog, relation, filters, i, replies, at)
                == ProgressView::<()>::Fail(e, n),
            ProgressView::Got(_, n) => granted_all(catalog, relation, filters, i, replies, at)
                == granted_all(catalog, relation, filters, i + 1, replies, n),
        })),
{
    reveal_strlit("CatalogId");
    reveal_strlit("DatabaseName");
    reveal_strlit("Name");
    assert("CatalogId"@.len() == 9 && "DatabaseName"@.len() == 12 && "Name"@.len() == 4);
    let inner = Seq::<(Seq<char>, JsonView)>::empty().push(("CatalogId"@, text(catalog))).push(
        ("DatabaseName"@, text(relation.schema@)),
    ).push(("Name"@, text(relation.identifier@)));
    place_is_unique(inner, "CatalogId"@, 0);
    place_is_unique(inner, "DatabaseName"@, 1);
    place_is_unique(inner, "Name"@, 2);
    let outer = Seq::<(Seq<char>, JsonView)>::empty().push(("Table"@, JsonView::Object(inner)));
    place_is_unique(outer, "Table"@, 0);
    if i < filters.len() {
        let f = Seq::<(Seq<char>, JsonView)>::empty().push(
            ("Resource"@, filter_resource(catalog, relation, filters[i].0)),
        );
        place_is_unique(f, "Resource"@, 0);
    }
}

/// The settings of tags that can be read.
pub proof fn settings_of_tags(v: JsonView, text_value: Seq<char>)
    ensures
        is_tags_config(v) <==> {
            &&& v is Object
            &&& lookup(v, "enabled"@) is None || lookup(v, "enabled"@)->0 is Bool
            &&& lookup(v, "tags"@) is None || lookup(v, "tags"@)->0 is Null || is_text_map(
                lookup(v, "tags"@)->0,
            )
            &&& lookup(v, "tags_columns"@) is None || lookup(v, "tags_columns"@)->0 is Null
                || is_column_map(lookup(v, "tags_columns"@)->0)
            &&& lookup(v, "inherited_tags"@) is None || lookup(v, "inherited_tags"@)->0 is Null
                || is_text_list(lookup(v, "inherited_tags"@)->0)
        },
        !is_text_list(JsonView::Text(text_value)),
        is_text_list(JsonView::List(seq![JsonView::Text(text_value)])),
        !is_text_list(JsonView::List(seq![JsonView::Null])),
{
    let wrong = seq![JsonView::Null];
    assert(wrong[0] == JsonView::Null);
}

/// Grants are applied in the catalog of the table, which has to be known.
pub proof fn grants_need_a_catalog(
    relation: RelationParts,
    config: LfGrantsConfig,
    replies: Seq<ReplyView>,
    at: int,
)
    ensures
        match catalog_id(opt(relation.database), replies, at) {
            ProgressView::Ask(r) => grants_applied(relation, config, replies, at) == ProgressView::<
                (),
            >::Ask(r),
            ProgressView::Fail(e, n) => grants_applied(relation, config, replies, at)
                == ProgressView::<()>::Fail(e, n),
            ProgressView::Got(None, n) => (grants_applied(relation, config, replies, at)
                matches ProgressView::Fail(e, m) && m == n && e.kind
                == OpsErrorKind::UnexpectedResult && e.message
                == "lf_grants: no Glue catalog id for database "@ + debug_option(
                opt(relation.database),
            )),
            ProgressView::Got(Some(id), n) => grants_applied(relation, config, replies, at)
                == applied(id, relation, keyed(config.data_cell_filters.filters@), replies, n),
        },
{
}

/// A call is answered by the reply at its place, and is asked for where there is none.
pub proof fn replies_answer_calls(
    replies: Seq<ReplyView>,
    at: int,
    operation: Seq<char>,
    payload: JsonView,
)
    requires
        0 <= at <= replies.len(),
    ensures
        at == replies.len() ==> called(replies, at, operation, payload) == ProgressView::<
            JsonView,
        >::Ask(RequestView { operation, payload }),
        at < replies.len() ==> (match replies[at] {
            Ok(response) => called(replies, at, operation, payload) == ProgressView::Got(
                response,
                at + 1,
            ),
            Err(e) => called(replies, at, operation, payload) == ProgressView::<JsonView>::Fail(
                e,
                at + 1,
            ),
        }),
{
}

/// Answers that cannot be read are told by their operation.
pub proof fn unreadable_answers_are_told(operation: Seq<char>, what: Seq<char>)
    ensures
        unexpected(operation, what).kind == OpsErrorKind::UnexpectedResult,
        unexpected(operation, what).message == "[athena] "@ + operation + ": "@ + what,
{
}

/// Tags are ordered by their keys and then by their values, each against every other.
pub proof fn tags_are_ordered(a: (Seq<char>, Seq<char>), b: (Seq<char>, Seq<char>))
    ensures
        !tag_less(a, a),
        a != b ==> (tag_less(a, b) <==> !tag_less(b, a)),
        a.0 != b.0 ==> (tag_less(a, b) <==> less(a.0, b.0)),
        a.0 == b.0 ==> (tag_less(a, b) <==> less(a.1, b.1)),
{
    less_is_irreflexive(a.0);
    less_is_irreflexive(a.1);
    less_is_irreflexive(b.0);
    less_is_irreflexive(b.1);
    less_is_total(a.0, b.0);
    less_is_total(a.1, b.1);
    if less(a.0, b.0) && less(b.0, a.0) {
        less_is_transitive(a.0, b.0, a.0);
    }
    if less(a.1, b.1) && less(b.1, a.1) {
        less_is_transitive(a.1, b.1, a.1);
    }
}

/// Settings are read entry by entry, each by the kind of its value.
pub proof fn settings_are_read_by_entry(
    fields: FieldsView,
    key: Seq<char>,
    v: JsonView,
    items: Seq<JsonView>,
)
    ensures
        is_text_list(JsonView::List(items.push(v))) <==> is_text_list(JsonView::List(items)) && v
            is Text,
        is_text_map(JsonView::Object(fields.push((key, v)))) <==> is_text_map(
            JsonView::Object(fields),
        ) && v is Text,
        is_list_map(JsonView::Object(fields.push((key, v)))) <==> is_list_map(
            JsonView::Object(fields),
        ) && is_text_list(v),
        is_column_map(JsonView::Object(fields.push((key, v)))) <==> is_column_map(
            JsonView::Object(fields),
        ) && is_list_map(v),
{
    let more = fields.push((key, v));
    let longer = items.push(v);
    assert(more[fields.len() as int] == (key, v));
    assert(longer[items.len() as int] == v);
    assert forall|i: int| 0 <= i < fields.len() implies #[trigger] more[i] == fields[i] by {}
    assert forall|i: int| 0 <= i < items.len() implies #[trigger] longer[i] == items[i] by {}
    assert forall|i: int| 0 <= i < fields.len() implies #[trigger] fields[i] == more[i] by {}
    assert forall|i: int| 0 <= i < items.len() implies #[trigger] items[i] == longer[i] by {}
}

/// What is said of tags that are added to columns or removed from them.
pub proof fn calls_say_what_they_do(relation: RelationParts, group: TagColumnsView)
    ensures
        remove_call(relation, group).operation == "lakeformation.remove_lf_tags_from_resource"@,
        remove_call(relation, group).what == Some(
            "remove LF tag "@ + group.key + "="@ + group.value + " from "@ + full_name(relation)
                + " columns "@ + debug_list(group.columns),
        ),
        add_call(relation, group).operation == "lakeformation.add_lf_tags_to_resource"@,
        add_call(relation, group).what == Some(
            "add LF tag "@ + group.key + "="@ + group.value + " to "@ + full_name(relation)
                + " columns "@ + debug_list(group.columns),
        ),
{
}

/// A filter that is not listed is created, one that is listed and differs is updated, and
/// one that is as configured is left; what is sent is the filter as it is written.
pub proof fn filters_are_created_and_updated(
    catalog: Seq<char>,
    relation: RelationParts,
    name: Seq<char>,
    filter: FilterView,
    current: Existing,
)
    ensures
        found(current, name) is None ==> (write_call(catalog, relation, name, filter, current)
            matches Some(c) && c.operation == "lakeformation.create_data_cells_filter"@ && member(
            c.payload,
            "TableData"@,
        ) == table_data(catalog, relation, name, filter)),
        found(current, name) matches Some(existing) ==> {
            &&& differs(filter, existing) ==> (write_call(catalog, relation, name, filter, current)
                matches Some(c) && c.operation == "lakeformation.update_data_cells_filter"@
                && member(c.payload, "TableData"@) == table_data(catalog, relation, name, filter))
            &&& !differs(filter, existing) ==> write_call(catalog, relation, name, filter, current)
                is None
        },
{
    let sent = Seq::<(Seq<char>, JsonView)>::empty().push(
        ("TableData"@, table_data(catalog, relation, name, filter)),
    );
    place_is_unique(sent, "TableData"@, 0);
}

/// A filter that is deleted is addressed as it was listed.
pub proof fn filters_are_deleted_as_listed(name: Seq<char>, existing: JsonView)
    ensures
        ({
            let c = delete_call(name, existing);
            &&& c.operation == "lakeformation.delete_data_cells_filter"@
            &&& member(c.payload, "TableCatalogId"@) == member(existing, "TableCatalogId"@)
            &&& member(c.payload, "DatabaseName"@) == member(existing, "DatabaseName"@)
            &&& member(c.payload, "TableName"@) == member(existing, "TableName"@)
            &&& text_at(c.payload, "Name"@) == Some(name)
        }),
{
    reveal_strlit("TableCatalogId");
    reveal_strlit("DatabaseName");
    reveal_strlit("TableName");
    reveal_strlit("Name");
    assert("TableCatalogId"@.len() == 14 && "DatabaseName"@.len() == 12 && "TableName"@.len() == 9
        && "Name"@.len() == 4);
    let sent = delete_call(name, existing).payload->Object_0;
    place_is_unique(sent, "TableCatalogId"@, 0);
    place_is_unique(sent, "DatabaseName"@, 1);
    place_is_unique(sent, "TableName"@, 2);
    place_is_unique(sent, "Name"@, 3);
}

/// Exactly the listed filters that are not configured are deleted, before any is written,
/// and the configured ones are written in their order.
pub proof fn filters_that_are_deleted(
    catalog: Seq<char>,
    relation: RelationParts,
    current: Existing,
    last: (Seq<char>, JsonView),
    filters: Filters,
    one: (Seq<char>, FilterView),
    listed: JsonView,
)
    ensures
        delete_calls(Seq::empty(), filters) == Seq::<LfCallView>::empty(),
        !has_key(filters, last.0) ==> delete_calls(current.push(last), filters) == delete_calls(
            current,
            filters,
        ).push(delete_call(last.0, last.1)),
        has_key(filters, last.0) ==> delete_calls(current.push(last), filters) == delete_calls(
            current,
            filters,
        ),
        write_calls(catalog, relation, Seq::empty(), current) == Seq::<LfCallView>::empty(),
        write_calls(catalog, relation, filters.push(one), current) == (match write_call(
            catalog,
            relation,
            one.0,
            one.1,
            current,
        ) {
            Some(c) => write_calls(catalog, relation, filters, current).push(c),
            None => write_calls(catalog, relation, filters, current),
        }),
        filter_calls(catalog, relation, filters, listed) == delete_calls(
            by_name(items_of(member(listed, "DataCellsFilters"@))),
            filters,
        ) + write_calls(
            catalog,
            relation,
            filters,
            by_name(items_of(member(listed, "DataCellsFilters"@))),
        ),
        full_name(relation) == relation.schema@ + seq!['.'] + relation.identifier@,
{
    reveal_strlit(".");
    assert("."@ =~= seq!['.']);
    found_is_there(filters, last.0);
    assert(current.push(last).drop_last() =~= current);
    assert(filters.push(one).drop_last() =~= filters);
}

} // verus!
