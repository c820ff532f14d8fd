//! What becomes of a schema and of the keys of a warehouse.

use crate::schemas::man::{
    all_restricted, configs, denied, denied_all, denied_patterns, denied_properties, is_invalid,
    is_removed, kept_properties, lowered, refusal, restricted, shown, surface_status, InstanceType,
    JsonSchemaTypes, ObjectView, RootView, SchemaView, Surface,
};
use crate::schemas::warehouse_scope::{
    is_kept, is_warned, kept, on_project_surface, on_resolved_surface, rule_from, status, warning,
    warnings, EntryView, KeyStatus, WarehouseScope,
};
use crate::text::{join, unicode_lower, views};
use crate::wap::nodes::NodeType;
use vstd::prelude::*;

verus! {

// ---------------------------------------------------------------------------
// Additional properties
// ---------------------------------------------------------------------------

/// A schema of objects denies additional properties, unless it stands under `meta` or says
/// itself what they are like.
pub proof fn objects_deny_more(o: ObjectView, exempt: bool)
    requires
        o.validates_objects,
        o.instance_types is Some,
    ensures
        denied(SchemaView::Object(o), exempt) matches SchemaView::Object(p) && {
            let keeps = exempt || !o.instance_types->0.contains(InstanceType::Object) || (
            o.additional_properties.len() == 1 && o.additional_properties[0] is Object);
            &&& keeps ==> p.additional_properties == o.additional_properties
            &&& !keeps ==> p.additional_properties == seq![SchemaView::Boolean(false)]
            &&& p.instance_types == o.instance_types
            &&& p.validates_objects
            &&& p.properties == denied_properties(o.properties, exempt)
            &&& p.pattern_properties == denied_patterns(o.pattern_properties, exempt)
            &&& p.combines == o.combines
            &&& p.subschemas == o.subschemas
            &&& p.rest == o.rest
        },
{
    assert(Seq::<SchemaView>::empty().push(SchemaView::Boolean(false)) =~= seq![
        SchemaView::Boolean(false),
    ]);
}

/// Of other schemas only the parts that they are combined from change.
pub proof fn other_schemas_stay(o: ObjectView, b: bool, exempt: bool)
    requires
        !o.validates_objects || o.instance_types is None,
    ensures
        denied(SchemaView::Boolean(b), exempt) == SchemaView::Boolean(b),
        !o.combines ==> denied(SchemaView::Object(o), exempt) == SchemaView::Object(o),
        o.combines ==> (denied(SchemaView::Object(o), exempt) matches SchemaView::Object(p) && {
            &&& p.subschemas == denied_all(o.subschemas, exempt)
            &&& p.additional_properties == o.additional_properties
            &&& p.properties == o.properties
            &&& p.pattern_properties == o.pattern_properties
            &&& p.instance_types == o.instance_types
            &&& p.validates_objects == o.validates_objects
            &&& p.rest == o.rest
        }),
{
}

/// Properties keep their names and their order, and what stands under `meta` is exempt.
pub proof fn properties_keep_their_names(
    items: Seq<(Seq<char>, SchemaView)>,
    name: Seq<char>,
    s: SchemaView,
    schemas: Seq<SchemaView>,
    exempt: bool,
)
    ensures
        denied_properties(items.push((name, s)), exempt) == denied_properties(items, exempt).push(
            (name, denied(s, exempt || name == "meta"@)),
        ),
        denied_patterns(items.push((name, s)), exempt) == denied_patterns(items, exempt).push(
            (name, denied(s, exempt)),
        ),
        denied_all(schemas.push(s), exempt) == denied_all(schemas, exempt).push(
            denied(s, exempt),
        ),
        denied_properties(Seq::empty(), exempt).len() == 0,
        denied_patterns(Seq::empty(), exempt).len() == 0,
        denied_all(Seq::empty(), exempt).len() == 0,
{
    assert(items.push((name, s)).drop_last() =~= items);
    assert(schemas.push(s).drop_last() =~= schemas);
}

// ---------------------------------------------------------------------------
// Keys of a warehouse
// ---------------------------------------------------------------------------

proof fn first_rule_counts(
    scope: WarehouseScope,
    resource: NodeType,
    key: Seq<char>,
    i: int,
    k: int,
)
    requires
        0 <= i <= k <= scope.rules@.len(),
        k < scope.rules@.len() ==> scope.rules@[k].resource == resource && scope.rules@[k].key@
            == key,
        forall|j: int|
            i <= j < k ==> (#[trigger] scope.rules@[j]).resource != resource
                || scope.rules@[j].key@ != key,
    ensures
        rule_from(scope.rules@, resource, key, i) == (if k < scope.rules@.len() {
            Some(scope.rules@[k].status)
        } else {
            None
        }),
    decreases k - i,
{
    if i < k {
        assert(scope.rules@[i].resource != resource || scope.rules@[i].key@ != key);
        first_rule_counts(scope, resource, key, i + 1, k);
    }
}

/// The status of a key is that of the first rule for it and its resource; a key of the
/// warehouse without a rule is only resolved, and any other key is unknown.
pub proof fn keys_have_the_status_of_their_rule(
    scope: WarehouseScope,
    resource: NodeType,
    key: Seq<char>,
    k: int,
)
    requires
        0 <= k <= scope.rules@.len(),
        k < scope.rules@.len() ==> scope.rules@[k].resource == resource && scope.rules@[k].key@
            == key,
        forall|j: int|
            0 <= j < k ==> (#[trigger] scope.rules@[j]).resource != resource
                || scope.rules@[j].key@ != key,
    ensures
        !views(scope.keys@).contains(key) ==> status(scope, resource, key) == KeyStatus::Unknown,
        views(scope.keys@).contains(key) ==> status(scope, resource, key) == (if k
            < scope.rules@.len() {
            scope.rules@[k].status
        } else {
            KeyStatus::ResolvedOnly
        }),
{
    first_rule_counts(scope, resource, key, 0, k);
}

/// A key that is only resolved is deprecated where configs are resolved, and invalid in
/// the project; every other status is the same on both.
pub proof fn surfaces_differ_in_resolved_keys(s: KeyStatus)
    ensures
        on_resolved_surface(KeyStatus::ResolvedOnly) == KeyStatus::Stale,
        on_project_surface(KeyStatus::ResolvedOnly) == KeyStatus::Invalid,
        s != KeyStatus::ResolvedOnly ==> on_resolved_surface(s) == s && on_project_surface(s) == s,
{
}

/// What happens to a key of each status: invalid keys are ignored with a warning, stale
/// ones are applied with one, all others are applied in silence.
pub proof fn statuses_decide(key: Seq<char>, value: crate::json::JsonView)
    ensures
        ({
            let e = EntryView { key: Some(key), value };
            &&& !is_kept(e, KeyStatus::Invalid)
            &&& is_kept(e, KeyStatus::Valid) && is_kept(e, KeyStatus::Stale) && is_kept(
                e,
                KeyStatus::ResolvedOnly,
            ) && is_kept(e, KeyStatus::Unknown)
            &&& is_warned(e, KeyStatus::Invalid) && is_warned(e, KeyStatus::Stale) && is_warned(
                e,
                KeyStatus::ResolvedOnly,
            )
            &&& !is_warned(e, KeyStatus::Valid) && !is_warned(e, KeyStatus::Unknown)
        }),
        ({
            let e = EntryView { key: None, value };
            &&& is_kept(e, KeyStatus::Invalid)
            &&& !is_warned(e, KeyStatus::Invalid)
        }),
{
}

/// Entries are kept, and warned of, in their order, each once.
pub proof fn entries_are_taken_in_order(
    entries: Seq<EntryView>,
    statuses: Seq<KeyStatus>,
    context: Option<Seq<char>>,
    resource: Seq<char>,
    to: int,
)
    requires
        0 < to <= entries.len(),
    ensures
        kept(entries, statuses, 0).len() == 0,
        warnings(entries, statuses, context, resource, 0).len() == 0,
        ({
            let e = entries[to - 1];
            let s = statuses[to - 1];
            &&& e.key is Some && s == KeyStatus::Invalid ==> kept(entries, statuses, to) == kept(
                entries,
                statuses,
                to - 1,
            )
            &&& e.key is None || s != KeyStatus::Invalid ==> kept(entries, statuses, to) == kept(
                entries,
                statuses,
                to - 1,
            ).push(e)
            &&& e.key is Some && (s == KeyStatus::Stale || s == KeyStatus::ResolvedOnly || s
                == KeyStatus::Invalid) ==> warnings(entries, statuses, context, resource, to)
                == warnings(entries, statuses, context, resource, to - 1).push(
                (to - 1, warning(e.key->0, context, resource, s)),
            )
            &&& e.key is None || s == KeyStatus::Valid || s == KeyStatus::Unknown ==> warnings(
                entries,
                statuses,
                context,
                resource,
                to,
            ) == warnings(entries, statuses, context, resource, to - 1)
        }),
{
}

/// What a warning says of a key.
pub proof fn warnings_name_their_key(
    key: Seq<char>,
    context: Seq<char>,
    resource: Seq<char>,
    s: KeyStatus,
)
    ensures
        warning(key, None, resource, KeyStatus::Invalid) == "Config `"@ + key
            + "` for resource type `"@ + resource
            + "` is not a valid config here and is ignored."@,
        s != KeyStatus::Invalid ==> warning(key, None, resource, s) == "Config `"@ + key
            + "` for resource type `"@ + resource
            + "` is deprecated and may stop being supported in a future release. It is still applied."@,
        warning(key, Some(context), resource, KeyStatus::Invalid) == "Config `"@ + key
            + "` (under `"@ + context + "`) for resource type `"@ + resource
            + "` is not a valid config here and is ignored."@,
{
    reveal_strlit("`");
    reveal_strlit("");
    reveal_strlit(" for resource type `");
    reveal_strlit("` for resource type `");
    reveal_strlit("` is ");
    reveal_strlit("not a valid config here and is ignored.");
    reveal_strlit("` is not a valid config here and is ignored.");
    reveal_strlit(
        "deprecated and may stop being supported in a future release. It is still applied.",
    );
    reveal_strlit(
        "` is deprecated and may stop being supported in a future release. It is still applied.",
    );
    reveal_strlit(" (under `");
    reveal_strlit("`)");
    reveal_strlit("` (under `");
    reveal_strlit("`) for resource type `");
    assert("`"@ + ""@ + " for resource type `"@ =~= "` for resource type `"@);
    assert("` is "@ + "not a valid config here and is ignored."@
        =~= "` is not a valid config here and is ignored."@);
    assert("` is "@
        + "deprecated and may stop being supported in a future release. It is still applied."@
        =~= "` is deprecated and may stop being supported in a future release. It is still applied."@);
    assert("`"@ + " (under `"@ =~= "` (under `"@);
    assert("`)"@ + " for resource type `"@ =~= "`) for resource type `"@);
    assert(warning(key, None, resource, KeyStatus::Invalid) =~= "Config `"@ + key
        + "` for resource type `"@ + resource + "` is not a valid config here and is ignored."@);
    if s != KeyStatus::Invalid {
        assert(warning(key, None, resource, s) =~= "Config `"@ + key + "` for resource type `"@
            + resource
            + "` is deprecated and may stop being supported in a future release. It is still applied."@);
    }
    assert(warning(key, Some(context), resource, KeyStatus::Invalid) =~= "Config `"@ + key
        + "` (under `"@ + context + "`) for resource type `"@ + resource
        + "` is not a valid config here and is ignored."@);
}

// ---------------------------------------------------------------------------
// Definitions
// ---------------------------------------------------------------------------

/// A property is removed where its key is invalid on the surface; in a project only keys
/// behind a plus sign are of a warehouse.
pub proof fn properties_that_are_removed(
    scope: WarehouseScope,
    surface: Surface,
    resource: NodeType,
    key: Seq<char>,
)
    ensures
        is_invalid(scope, surface, false, resource, key) <==> surface_status(
            scope,
            surface,
            resource,
            key,
        ) == KeyStatus::Invalid,
        is_invalid(scope, surface, true, resource, seq!['+'] + key) <==> surface_status(
            scope,
            surface,
            resource,
            key,
        ) == KeyStatus::Invalid,
        key.len() == 0 || key[0] != '+' ==> !is_invalid(scope, surface, true, resource, key),
        surface_status(scope, Surface::Resolved, resource, key) == on_resolved_surface(
            status(scope, resource, key),
        ),
        surface_status(scope, Surface::Project, resource, key) == on_project_surface(
            status(scope, resource, key),
        ),
{
    assert((seq!['+'] + key).skip(1) =~= key);
}

/// The definitions that hold the config of a resource.
pub proof fn definitions_of_configs(prefix: Seq<char>)
    ensures
        configs(prefix) == seq![
            (prefix + "ModelConfig"@, NodeType::Model),
            (prefix + "SeedConfig"@, NodeType::Seed),
            (prefix + "SnapshotConfig"@, NodeType::Snapshot),
            (prefix + "SourceConfig"@, NodeType::Source),
            (prefix + "DataTestConfig"@, NodeType::Test),
            (prefix + "UnitTestConfig"@, NodeType::UnitTest),
            (prefix + "FunctionConfig"@, NodeType::Function),
        ],
{
}

/// A definition loses its removed properties and nothing else.
pub proof fn definitions_lose_removed_properties(
    scope: WarehouseScope,
    surface: Surface,
    plus: bool,
    definitions: Seq<(Seq<char>, NodeType)>,
    name: Seq<char>,
    o: ObjectView,
    property: (Seq<char>, SchemaView),
)
    ensures
        restricted(scope, surface, plus, definitions, (name, SchemaView::Object(o))).0 == name,
        !o.validates_objects ==> restricted(
            scope,
            surface,
            plus,
            definitions,
            (name, SchemaView::Object(o)),
        ).1 == SchemaView::Object(o),
        o.validates_objects ==> (restricted(
            scope,
            surface,
            plus,
            definitions,
            (name, SchemaView::Object(o)),
        ).1 matches SchemaView::Object(p) && {
            &&& p.properties == kept_properties(
                scope,
                surface,
                plus,
                definitions,
                name,
                o.properties,
            )
            &&& p.pattern_properties == o.pattern_properties
            &&& p.additional_properties == o.additional_properties
            &&& p.instance_types == o.instance_types
            &&& p.subschemas == o.subschemas
            &&& p.rest == o.rest
        }),
        is_removed(scope, surface, plus, definitions, name, property.0) ==> kept_properties(
            scope,
            surface,
            plus,
            definitions,
            name,
            o.properties.push(property),
        ) == kept_properties(scope, surface, plus, definitions, name, o.properties),
        !is_removed(scope, surface, plus, definitions, name, property.0) ==> kept_properties(
            scope,
            surface,
            plus,
            definitions,
            name,
            o.properties.push(property),
        ) == kept_properties(scope, surface, plus, definitions, name, o.properties).push(property),
        (forall|i: int| 0 <= i < definitions.len() ==> (#[trigger] definitions[i]).0 != name)
            ==> !is_removed(scope, surface, plus, definitions, name, property.0),
{
    assert(o.properties.push(property).drop_last() =~= o.properties);
}

/// Schemas of telemetry and catalogs are shown as they are, all others closed; those of
/// projects and of properties without the keys that the warehouse does not take.
pub proof fn schemas_are_shown(root: RootView, scope: WarehouseScope)
    ensures
        shown(JsonSchemaTypes::Telemetry, root, scope) == root,
        shown(JsonSchemaTypes::Catalogs, root, scope) == root,
        ({
            let s = denied(root.schema, false);
            let d = denied_patterns(root.definitions, false);
            &&& shown(JsonSchemaTypes::Profile, root, scope) == (RootView {
                schema: s,
                definitions: d,
            })
            &&& shown(JsonSchemaTypes::Selector, root, scope) == (RootView {
                schema: s,
                definitions: d,
            })
            &&& shown(JsonSchemaTypes::DbtCloud, root, scope) == (RootView {
                schema: s,
                definitions: d,
            })
            &&& shown(JsonSchemaTypes::Packages, root, scope) == (RootView {
                schema: s,
                definitions: d,
            })
            &&& shown(JsonSchemaTypes::Dependencies, root, scope) == (RootView {
                schema: s,
                definitions: d,
            })
            &&& shown(JsonSchemaTypes::Project, root, scope).schema == s
            &&& shown(JsonSchemaTypes::Project, root, scope).definitions == all_restricted(
                scope,
                Surface::Project,
                true,
                configs("Project"@),
                d,
            )
            &&& shown(JsonSchemaTypes::Schema, root, scope).schema == s
            &&& shown(JsonSchemaTypes::Schema, root, scope).definitions == all_restricted(
                scope,
                Surface::Resolved,
                false,
                configs(""@),
                d,
            )
        }),
{
}

/// Where no schema is asked for, all that can be are told, in lower case.
pub proof fn schemas_are_offered(available: Seq<Seq<char>>, one: Seq<char>)
    ensures
        refusal(seq![one]) == "Please provide a --schema <SCHEMA>, where <SCHEMA> is one of "@
            + unicode_lower(one),
        available.len() > 0 ==> refusal(available.push(one)) == refusal(available) + ", "@
            + unicode_lower(one),
{
    assert(lowered(seq![one]) =~= seq![unicode_lower(one)]);
    assert(lowered(available.push(one)).drop_last() =~= lowered(available));
    let start = "Please provide a --schema <SCHEMA>, where <SCHEMA> is one of "@;
    assert(start + (join(lowered(available), ", "@) + ", "@ + unicode_lower(one)) =~= start + join(
        lowered(available),
        ", "@,
    ) + ", "@ + unicode_lower(one));
}

} // verus!
