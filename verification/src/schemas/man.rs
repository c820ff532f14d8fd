//! JSON schemas of the files of a project, as they are shown.

use crate::schemas::warehouse_scope::{
    on_project_surface, on_resolved_surface, project_surface_key_status,
    resolved_surface_key_status, status, KeyStatus, WarehouseScope,
};
use crate::text::{from_range, join, joined, same, to_chars, to_lowercase, unicode_lower, views};
use crate::wap::nodes::{ErrorCode, FsError, FsErrorView, NodeType};
use vstd::prelude::*;

verus! {

// ---------------------------------------------------------------------------
// Schemas
// ---------------------------------------------------------------------------

#[derive(Debug, Clone, Copy, PartialEq, Eq, Structural)]
pub enum InstanceType {
    Null,
    Boolean,
    Object,
    Array,
    Number,
    Text,
    Integer,
}

/// A schema. Of one that is an object only the parts are apart that are worked on; the
/// rest is kept as text.
#[derive(Debug)]
pub enum Schema {
    Boolean(bool),
    Object(SchemaObject),
}

#[derive(Debug)]
pub struct SchemaObject {
    pub instance_types: Option<Vec<InstanceType>>,
    /// The schema says something of objects.
    pub validates_objects: bool,
    pub properties: Vec<(String, Schema)>,
    pub pattern_properties: Vec<(String, Schema)>,
    /// The schema of additional properties: one, or none.
    pub additional_properties: Vec<Schema>,
    /// The schema is combined from other ones.
    pub combines: bool,
    pub subschemas: Vec<Schema>,
    pub rest: String,
}

pub enum SchemaView {
    Boolean(bool),
    Object(ObjectView),
}

pub struct ObjectView {
    pub instance_types: Option<Seq<InstanceType>>,
    pub validates_objects: bool,
    pub properties: Seq<(Seq<char>, SchemaView)>,
    pub pattern_properties: Seq<(Seq<char>, SchemaView)>,
    pub additional_properties: Seq<SchemaView>,
    pub combines: bool,
    pub subschemas: Seq<SchemaView>,
    pub rest: Seq<char>,
}

pub open spec fn types_view(types: Option<Vec<InstanceType>>) -> Option<Seq<InstanceType>> {
    match types {
        Some(t) => Some(t@),
        None => None,
    }
}

pub open spec fn schema_view(s: Schema) -> SchemaView
    decreases s,
{
    match s {
        Schema::Boolean(b) => SchemaView::Boolean(b),
        Schema::Object(o) => {
            proof {
                assert(decreases_to!(s => s->Object_0));
                assert(decreases_to!(s->Object_0 => s->Object_0.properties));
                assert(decreases_to!(s->Object_0.properties => s->Object_0.properties@));
                assert(decreases_to!(s->Object_0 => s->Object_0.pattern_properties));
                assert(decreases_to!(s->Object_0.pattern_properties => s->Object_0.pattern_properties@));
                assert(decreases_to!(s->Object_0 => s->Object_0.additional_properties));
                assert(decreases_to!(s->Object_0.additional_properties => s->Object_0.additional_properties@));
                assert(decreases_to!(s->Object_0 => s->Object_0.subschemas));
                assert(decreases_to!(s->Object_0.subschemas => s->Object_0.subschemas@));
            }
            SchemaView::Object(
                ObjectView {
                    instance_types: types_view(o.instance_types),
                    validates_objects: o.validates_objects,
                    properties: named_view(o.properties@),
                    pattern_properties: named_view(o.pattern_properties@),
                    additional_properties: schemas_view(o.additional_properties@),
                    combines: o.combines,
                    subschemas: schemas_view(o.subschemas@),
                    rest: o.rest@,
                },
            )
        },
    }
}

pub open spec fn schemas_view(items: Seq<Schema>) -> Seq<SchemaView>
    decreases items,
{
    if items.len() == 0 {
        Seq::empty()
    } else {
        proof {
            assert(decreases_to!(items => items[items.len() - 1]));
            assert(items.drop_last() == items.subrange(0, items.len() - 1));
            assert(decreases_to!(items => items.subrange(0, items.len() - 1)));
        }
        schemas_view(items.drop_last()).push(schema_view(items[items.len() - 1]))
    }
}

pub open spec fn named_view(items: Seq<(String, Schema)>) -> Seq<(Seq<char>, SchemaView)>
    decreases items,
{
    if items.len() == 0 {
        Seq::empty()
    } else {
        proof {
            assert(decreases_to!(items => items[items.len() - 1]));
            assert(decreases_to!(items[items.len() - 1] => items[items.len() - 1].1));
            assert(items.drop_last() == items.subrange(0, items.len() - 1));
            assert(decreases_to!(items => items.subrange(0, items.len() - 1)));
        }
        let last = items[items.len() - 1];
        named_view(items.drop_last()).push((last.0@, schema_view(last.1)))
    }
}

impl View for Schema {
    type V = SchemaView;

    open spec fn view(&self) -> SchemaView {
        schema_view(*self)
    }
}

// ---------------------------------------------------------------------------
// Additional properties
// ---------------------------------------------------------------------------

/// Below this property anything may be added.
pub open spec fn is_open(key: Seq<char>) -> bool {
    key == "meta"@
}

/// The schema is of objects to which properties may be added that it does not describe.
pub open spec fn admits_more(o: ObjectView) -> bool {
    o.instance_types is Some && o.instance_types->0.contains(InstanceType::Object) && !(
    o.additional_properties.len() == 1 && o.additional_properties[0] is Object)
}

/// A schema that denies additional properties, unless it stands below an open property.
pub open spec fn denied(s: SchemaView, exempt: bool) -> SchemaView
    decreases s,
{
    match s {
        SchemaView::Boolean(_) => s,
        SchemaView::Object(o) => {
            proof {
                assert(decreases_to!(s => s->Object_0));
                assert(decreases_to!(s->Object_0 => s->Object_0.properties));
                assert(decreases_to!(s->Object_0 => s->Object_0.pattern_properties));
                assert(decreases_to!(s->Object_0 => s->Object_0.subschemas));
            }
            if o.instance_types is Some && o.validates_objects {
                SchemaView::Object(
                    ObjectView {
                        additional_properties: if !exempt && admits_more(o) {
                            Seq::empty().push(SchemaView::Boolean(false))
                        } else {
                            o.additional_properties
                        },
                        properties: denied_properties(o.properties, exempt),
                        pattern_properties: denied_patterns(o.pattern_properties, exempt),
                        ..o
                    },
                )
            } else if o.combines {
                SchemaView::Object(
                    ObjectView { subschemas: denied_all(o.subschemas, exempt), ..o },
                )
            } else {
                s
            }
        },
    }
}

pub open spec fn denied_properties(items: Seq<(Seq<char>, SchemaView)>, exempt: bool) -> Seq<
    (Seq<char>, SchemaView),
>
    decreases items,
{
    if items.len() == 0 {
        Seq::empty()
    } else {
        proof {
            assert(decreases_to!(items => items[items.len() - 1]));
            assert(decreases_to!(items[items.len() - 1] => items[items.len() - 1].1));
            assert(items.drop_last() == items.subrange(0, items.len() - 1));
            assert(decreases_to!(items => items.subrange(0, items.len() - 1)));
        }
        let last = items[items.len() - 1];
        denied_properties(items.drop_last(), exempt).push(
            (last.0, denied(last.1, exempt || is_open(last.0))),
        )
    }
}

pub open spec fn denied_patterns(items: Seq<(Seq<char>, SchemaView)>, exempt: bool) -> Seq<
    (Seq<char>, SchemaView),
>
    decreases items,
{
    if items.len() == 0 {
        Seq::empty()
    } else {
        proof {
            assert(decreases_to!(items => items[items.len() - 1]));
            assert(decreases_to!(items[items.len() - 1] => items[items.len() - 1].1));
            assert(items.drop_last() == items.subrange(0, items.len() - 1));
            assert(decreases_to!(items => items.subrange(0, items.len() - 1)));
        }
        let last = items[items.len() - 1];
        denied_patterns(items.drop_last(), exempt).push((last.0, denied(last.1, exempt)))
    }
}

pub open spec fn denied_all(items: Seq<SchemaView>, exempt: bool) -> Seq<SchemaView>
    decreases items,
{
    if items.len() == 0 {
        Seq::empty()
    } else {
        proof {
            assert(decreases_to!(items => items[items.len() - 1]));
            assert(items.drop_last() == items.subrange(0, items.len() - 1));
            assert(decreases_to!(items => items.subrange(0, items.len() - 1)));
        }
        denied_all(items.drop_last(), exempt).push(denied(items[items.len() - 1], exempt))
    }
}

fn is_open_key(key: &str) -> (r: bool)
    ensures
        r == is_open(key@),
{
    same(key, "meta")
}

fn has_object(types: &Vec<InstanceType>) -> (r: bool)
    ensures
        r == types@.contains(InstanceType::Object),
{
    let mut i: usize = 0;
    while i < types.len()
        invariant
            i <= types.len(),
            forall|k: int| 0 <= k < i ==> (#[trigger] types@[k]) != InstanceType::Object,
        decreases types.len() - i,
    {
        if types[i] == InstanceType::Object {
            return true;
        }
        i += 1;
    }
    false
}

proof fn views_are(items: Seq<Schema>)
    ensures
        schemas_view(items).len() == items.len(),
        forall|i: int|
            0 <= i < items.len() ==> (#[trigger] schemas_view(items)[i]) == schema_view(items[i]),
    decreases items.len(),
{
    if items.len() > 0 {
        views_are(items.drop_last());
        assert forall|i: int| 0 <= i < items.len() implies (#[trigger] schemas_view(items)[i])
            == schema_view(items[i]) by {
            if i < items.len() - 1 {
                assert(schemas_view(items.drop_last())[i] == schema_view(items.drop_last()[i]));
            }
        }
    }
}

proof fn list_view_grows(items: Seq<Schema>, item: Schema)
    ensures
        schemas_view(items.push(item)) == schemas_view(items).push(schema_view(item)),
{
    assert(items.push(item).drop_last() =~= items);
}

proof fn named_view_grows(items: Seq<(String, Schema)>, item: (String, Schema))
    ensures
        named_view(items.push(item)) == named_view(items).push((item.0@, schema_view(item.1))),
{
    assert(items.push(item).drop_last() =~= items);
}

/// Denies the additional properties of a schema and of all that it is made of, unless it
/// stands below an open property.
pub fn deny_additional_properties(schema: Schema, exempt: bool) -> (r: Schema)
    ensures
        r@ == denied(schema@, exempt),
    decreases schema,
{
    let ghost whole = schema;
    match schema {
        Schema::Boolean(b) => Schema::Boolean(b),
        Schema::Object(o) => {
            proof {
                assert(decreases_to!(whole => whole->Object_0));
                assert(decreases_to!(whole->Object_0 => whole->Object_0.properties));
                assert(decreases_to!(whole->Object_0.properties => whole->Object_0.properties@));
                assert(decreases_to!(whole->Object_0 => whole->Object_0.pattern_properties));
                assert(decreases_to!(whole->Object_0.pattern_properties => whole->Object_0.pattern_properties@));
                assert(decreases_to!(whole->Object_0 => whole->Object_0.subschemas));
                assert(decreases_to!(whole->Object_0.subschemas => whole->Object_0.subschemas@));
            }
            if o.instance_types.is_some() && o.validates_objects {
                let objects = match &o.instance_types {
                    Some(t) => has_object(t),
                    None => false,
                };
                let described = o.additional_properties.len() == 1 && is_object(
                    &o.additional_properties[0],
                );
                proof {
                    views_are(o.additional_properties@);
                }
                let additional_properties = if !exempt && objects && !described {
                    let mut none: Vec<Schema> = Vec::new();
                    let ghost before = none@;
                    none.push(Schema::Boolean(false));
                    proof {
                        list_view_grows(before, Schema::Boolean(false));
                    }
                    none
                } else {
                    o.additional_properties
                };
                let properties = deny_properties(o.properties, exempt);
                let pattern_properties = deny_patterns(o.pattern_properties, exempt);
                Schema::Object(
                    SchemaObject {
                        instance_types: o.instance_types,
                        validates_objects: o.validates_objects,
                        properties,
                        pattern_properties,
                        additional_properties,
                        combines: o.combines,
                        subschemas: o.subschemas,
                        rest: o.rest,
                    },
                )
            } else if o.combines {
                let subschemas = deny_all(o.subschemas, exempt);
                Schema::Object(
                    SchemaObject {
                        instance_types: o.instance_types,
                        validates_objects: o.validates_objects,
                        properties: o.properties,
                        pattern_properties: o.pattern_properties,
                        additional_properties: o.additional_properties,
                        combines: o.combines,
                        subschemas,
                        rest: o.rest,
                    },
                )
            } else {
                Schema::Object(o)
            }
        },
    }
}

fn is_object(schema: &Schema) -> (r: bool)
    ensures
        r == (schema@ is Object),
{
    match schema {
        Schema::Object(_) => true,
        Schema::Boolean(_) => false,
    }
}

fn deny_properties(items: Vec<(String, Schema)>, exempt: bool) -> (r: Vec<(String, Schema)>)
    ensures
        named_view(r@) == denied_properties(named_view(items@), exempt),
    decreases items@,
{
    let ghost all = items@;
    let mut rest = items;
    let mut made: Vec<(String, Schema)> = Vec::new();
    let ghost mut i: int = 0;
    while rest.len() > 0
        invariant
            0 <= i <= all.len(),
            rest@ == all.skip(i),
            all == items@,
            named_view(made@) == denied_properties(named_view(all.take(i)), exempt),
        decreases rest.len(),
    {
        let ghost before = made@;
        let item = rest.remove(0);
        proof {
            assert(item == all[i]);
            assert(rest@ =~= all.skip(i + 1));
            assert(all.take(i + 1) =~= all.take(i).push(all[i]));
            named_view_grows(all.take(i), all[i]);
            assert(named_view(all.take(i + 1)).drop_last() =~= named_view(all.take(i)));
            assert(decreases_to!(all => all[i]));
            assert(decreases_to!(all[i] => all[i].1));
        }
        let (key, schema) = item;
        let open = exempt || is_open_key(key.as_str());
        let kept = (key, deny_additional_properties(schema, open));
        made.push(kept);
        proof {
            named_view_grows(before, kept);
            i = i + 1;
        }
    }
    assert(all.take(i) =~= all);
    made
}

fn deny_patterns(items: Vec<(String, Schema)>, exempt: bool) -> (r: Vec<(String, Schema)>)
    ensures
        named_view(r@) == denied_patterns(named_view(items@), exempt),
    decreases items@,
{
    let ghost all = items@;
    let mut rest = items;
    let mut made: Vec<(String, Schema)> = Vec::new();
    let ghost mut i: int = 0;
    while rest.len() > 0
        invariant
            0 <= i <= all.len(),
            rest@ == all.skip(i),
            all == items@,
            named_view(made@) == denied_patterns(named_view(all.take(i)), exempt),
        decreases rest.len(),
    {
        let ghost before = made@;
        let item = rest.remove(0);
        proof {
            assert(item == all[i]);
            assert(rest@ =~= all.skip(i + 1));
            assert(all.take(i + 1) =~= all.take(i).push(all[i]));
            named_view_grows(all.take(i), all[i]);
            assert(named_view(all.take(i + 1)).drop_last() =~= named_view(all.take(i)));
            assert(decreases_to!(all => all[i]));
            assert(decreases_to!(all[i] => all[i].1));
        }
        let (pattern, schema) = item;
        let kept = (pattern, deny_additional_properties(schema, exempt));
        made.push(kept);
        proof {
            named_view_grows(before, kept);
            i = i + 1;
        }
    }
    assert(all.take(i) =~= all);
    made
}

fn deny_all(items: Vec<Schema>, exempt: bool) -> (r: Vec<Schema>)
    ensures
        schemas_view(r@) == denied_all(schemas_view(items@), exempt),
    decreases items@,
{
    let ghost all = items@;
    let mut rest = items;
    let mut made: Vec<Schema> = Vec::new();
    let ghost mut i: int = 0;
    while rest.len() > 0
        invariant
            0 <= i <= all.len(),
            rest@ == all.skip(i),
            all == items@,
            schemas_view(made@) == denied_all(schemas_view(all.take(i)), exempt),
        decreases rest.len(),
    {
        let ghost before = made@;
        let schema = rest.remove(0);
        proof {
            assert(schema == all[i]);
            assert(rest@ =~= all.skip(i + 1));
            assert(all.take(i + 1) =~= all.take(i).push(all[i]));
            list_view_grows(all.take(i), all[i]);
            assert(schemas_view(all.take(i + 1)).drop_last() =~= schemas_view(all.take(i)));
            assert(decreases_to!(all => all[i]));
        }
        let kept = deny_additional_properties(schema, exempt);
        made.push(kept);
        proof {
            list_view_grows(before, kept);
            i = i + 1;
        }
    }
    assert(all.take(i) =~= all);
    made
}

// ---------------------------------------------------------------------------
// Root schemas
// ---------------------------------------------------------------------------

/// The schema of a file, with the definitions that it refers to.
#[derive(Debug)]
pub struct RootSchema {
    pub schema: Schema,
    pub definitions: Vec<(String, Schema)>,
}

pub struct RootView {
    pub schema: SchemaView,
    pub definitions: Seq<(Seq<char>, SchemaView)>,
}

impl View for RootSchema {
    type V = RootView;

    open spec fn view(&self) -> RootView {
        RootView { schema: self.schema@, definitions: named_view(self.definitions@) }
    }
}

/// Sets "additionalProperties": false in all object schemas of a root schema, unless they
/// stand below a property that is open.
pub fn deny_additional_properties_in_root(root: RootSchema) -> (r: RootSchema)
    ensures
        r@ == (RootView {
            schema: denied(root@.schema, false),
            definitions: denied_patterns(root@.definitions, false),
        }),
{
    RootSchema {
        schema: deny_additional_properties(root.schema, false),
        definitions: deny_patterns(root.definitions, false),
    }
}

// ---------------------------------------------------------------------------
// Laws of the denial
// ---------------------------------------------------------------------------

/// Nowhere in the schema may properties be added that it does not describe, except below
/// open properties.
pub open spec fn is_closed(s: SchemaView, exempt: bool) -> bool
    decreases s,
{
    match s {
        SchemaView::Boolean(_) => true,
        SchemaView::Object(o) => {
            proof {
                assert(decreases_to!(s => s->Object_0));
                assert(decreases_to!(s->Object_0 => s->Object_0.properties));
                assert(decreases_to!(s->Object_0 => s->Object_0.pattern_properties));
                assert(decreases_to!(s->Object_0 => s->Object_0.subschemas));
            }
            if o.instance_types is Some && o.validates_objects {
                &&& exempt || !admits_more(o) || o.additional_properties == Seq::empty().push(
                    SchemaView::Boolean(false),
                )
                &&& are_closed_properties(o.properties, exempt)
                &&& are_closed_patterns(o.pattern_properties, exempt)
            } else {
                o.combines ==> are_closed(o.subschemas, exempt)
            }
        },
    }
}

pub open spec fn are_closed_properties(items: Seq<(Seq<char>, SchemaView)>, exempt: bool) -> bool
    decreases items,
{
    if items.len() == 0 {
        true
    } else {
        proof {
            assert(decreases_to!(items => items[items.len() - 1]));
            assert(decreases_to!(items[items.len() - 1] => items[items.len() - 1].1));
            assert(items.drop_last() == items.subrange(0, items.len() - 1));
            assert(decreases_to!(items => items.subrange(0, items.len() - 1)));
        }
        let last = items[items.len() - 1];
        are_closed_properties(items.drop_last(), exempt) && is_closed(
            last.1,
            exempt || is_open(last.0),
        )
    }
}

pub open spec fn are_closed_patterns(items: Seq<(Seq<char>, SchemaView)>, exempt: bool) -> bool
    decreases items,
{
    if items.len() == 0 {
        true
    } else {
        proof {
            assert(decreases_to!(items => items[items.len() - 1]));
            assert(decreases_to!(items[items.len() - 1] => items[items.len() - 1].1));
            assert(items.drop_last() == items.subrange(0, items.len() - 1));
            assert(decreases_to!(items => items.subrange(0, items.len() - 1)));
        }
        are_closed_patterns(items.drop_last(), exempt) && is_closed(
            items[items.len() - 1].1,
            exempt,
        )
    }
}

pub open spec fn are_closed(items: Seq<SchemaView>, exempt: bool) -> bool
    decreases items,
{
    if items.len() == 0 {
        true
    } else {
        proof {
            assert(decreases_to!(items => items[items.len() - 1]));
            assert(items.drop_last() == items.subrange(0, items.len() - 1));
            assert(decreases_to!(items => items.subrange(0, items.len() - 1)));
        }
        are_closed(items.drop_last(), exempt) && is_closed(items[items.len() - 1], exempt)
    }
}

/// Where additional properties have been denied, none can be added, and denying them once
/// more changes nothing.
pub proof fn denial_closes(s: SchemaView, exempt: bool)
    ensures
        is_closed(denied(s, exempt), exempt),
        denied(denied(s, exempt), exempt) == denied(s, exempt),
    decreases s,
{
    if let SchemaView::Object(o) = s {
        assert(decreases_to!(s => s->Object_0));
        assert(decreases_to!(s->Object_0 => s->Object_0.properties));
        assert(decreases_to!(s->Object_0 => s->Object_0.pattern_properties));
        assert(decreases_to!(s->Object_0 => s->Object_0.subschemas));
        if o.instance_types is Some && o.validates_objects {
            denial_closes_properties(s->Object_0.properties, exempt);
            denial_closes_patterns(s->Object_0.pattern_properties, exempt);
        } else if o.combines {
            denial_closes_all(s->Object_0.subschemas, exempt);
        }
    }
}

proof fn denial_closes_properties(items: Seq<(Seq<char>, SchemaView)>, exempt: bool)
    ensures
        are_closed_properties(denied_properties(items, exempt), exempt),
        denied_properties(denied_properties(items, exempt), exempt) == denied_properties(
            items,
            exempt,
        ),
    decreases items,
{
    if items.len() > 0 {
        let last = items[items.len() - 1];
        assert(decreases_to!(items => items[items.len() - 1]));
        assert(decreases_to!(items[items.len() - 1] => items[items.len() - 1].1));
        assert(items.drop_last() == items.subrange(0, items.len() - 1));
        assert(decreases_to!(items => items.subrange(0, items.len() - 1)));
        denial_closes(items[items.len() - 1].1, exempt || is_open(last.0));
        denial_closes_properties(items.subrange(0, items.len() - 1), exempt);
        assert(denied_properties(items, exempt).drop_last() =~= denied_properties(
            items.drop_last(),
            exempt,
        ));
    }
}

proof fn denial_closes_patterns(items: Seq<(Seq<char>, SchemaView)>, exempt: bool)
    ensures
        are_closed_patterns(denied_patterns(items, exempt), exempt),
        denied_patterns(denied_patterns(items, exempt), exempt) == denied_patterns(items, exempt),
    decreases items,
{
    if items.len() > 0 {
        assert(decreases_to!(items => items[items.len() - 1]));
        assert(decreases_to!(items[items.len() - 1] => items[items.len() - 1].1));
        assert(items.drop_last() == items.subrange(0, items.len() - 1));
        assert(decreases_to!(items => items.subrange(0, items.len() - 1)));
        denial_closes(items[items.len() - 1].1, exempt);
        denial_closes_patterns(items.subrange(0, items.len() - 1), exempt);
        assert(denied_patterns(items, exempt).drop_last() =~= denied_patterns(
            items.drop_last(),
            exempt,
        ));
    }
}

proof fn denial_closes_all(items: Seq<SchemaView>, exempt: bool)
    ensures
        are_closed(denied_all(items, exempt), exempt),
        denied_all(denied_all(items, exempt), exempt) == denied_all(items, exempt),
    decreases items,
{
    if items.len() > 0 {
        assert(decreases_to!(items => items[items.len() - 1]));
        assert(items.drop_last() == items.subrange(0, items.len() - 1));
        assert(decreases_to!(items => items.subrange(0, items.len() - 1)));
        denial_closes(items[items.len() - 1], exempt);
        denial_closes_all(items.subrange(0, items.len() - 1), exempt);
        assert(denied_all(items, exempt).drop_last() =~= denied_all(items.drop_last(), exempt));
    }
}

// ---------------------------------------------------------------------------
// Warehouse keys
// ---------------------------------------------------------------------------

/// Where a key is written.
#[derive(Debug, Clone, Copy, PartialEq, Eq, Structural)]
pub enum Surface {
    Resolved,
    Project,
}

/// A definition that describes the config of a resource type.
#[derive(Debug)]
pub struct ConfigDefinition {
    pub name: String,
    pub resource: NodeType,
}

pub open spec fn definitions_view(d: Seq<ConfigDefinition>) -> Seq<(Seq<char>, NodeType)> {
    d.map_values(|c: ConfigDefinition| (c.name@, c.resource))
}

pub open spec fn surface_status(
    scope: WarehouseScope,
    surface: Surface,
    resource: NodeType,
    key: Seq<char>,
) -> KeyStatus {
    match surface {
        Surface::Resolved => on_resolved_surface(status(scope, resource, key)),
        Surface::Project => on_project_surface(status(scope, resource, key)),
    }
}

/// The warehouse key that a property is for. In a project's config it has a plus sign before
/// it, and other properties there are for none.
pub open spec fn warehouse_key(property: Seq<char>, plus_prefixed: bool) -> Option<Seq<char>> {
    if !plus_prefixed {
        Some(property)
    } else if property.len() > 0 && property[0] == '+' {
        Some(property.skip(1))
    } else {
        None
    }
}

/// The property is for a key that is invalid for the resource type.
pub open spec fn is_invalid(
    scope: WarehouseScope,
    surface: Surface,
    plus_prefixed: bool,
    resource: NodeType,
    property: Seq<char>,
) -> bool {
    match warehouse_key(property, plus_prefixed) {
        Some(key) => surface_status(scope, surface, resource, key) == KeyStatus::Invalid,
        None => false,
    }
}

/// The property is removed from a definition of that name.
pub open spec fn is_removed(
    scope: WarehouseScope,
    surface: Surface,
    plus_prefixed: bool,
    definitions: Seq<(Seq<char>, NodeType)>,
    name: Seq<char>,
    property: Seq<char>,
) -> bool {
    exists|i: int|
        0 <= i < definitions.len() && (#[trigger] definitions[i]).0 == name && is_invalid(
            scope,
            surface,
            plus_prefixed,
            definitions[i].1,
            property,
        )
}

/// The properties that a definition of that name keeps.
pub open spec fn kept_properties(
    scope: WarehouseScope,
    surface: Surface,
    plus_prefixed: bool,
    definitions: Seq<(Seq<char>, NodeType)>,
    name: Seq<char>,
    properties: Seq<(Seq<char>, SchemaView)>,
) -> Seq<(Seq<char>, SchemaView)>
    decreases properties.len(),
{
    if properties.len() == 0 {
        Seq::empty()
    } else {
        let rest = kept_properties(
            scope,
            surface,
            plus_prefixed,
            definitions,
            name,
            properties.drop_last(),
        );
        if is_removed(scope, surface, plus_prefixed, definitions, name, properties.last().0) {
            rest
        } else {
            rest.push(properties.last())
        }
    }
}

/// A definition without the properties that are removed from it.
pub open spec fn restricted(
    scope: WarehouseScope,
    surface: Surface,
    plus_prefixed: bool,
    definitions: Seq<(Seq<char>, NodeType)>,
    definition: (Seq<char>, SchemaView),
) -> (Seq<char>, SchemaView) {
    match definition.1 {
        SchemaView::Object(o) => if o.validates_objects {
            (
                definition.0,
                SchemaView::Object(
                    ObjectView {
                        properties: kept_properties(
                            scope,
                            surface,
                            plus_prefixed,
                            definitions,
                            definition.0,
                            o.properties,
                        ),
                        ..o
                    },
                ),
            )
        } else {
            definition
        },
        SchemaView::Boolean(_) => definition,
    }
}

pub open spec fn all_restricted(
    scope: WarehouseScope,
    surface: Surface,
    plus_prefixed: bool,
    definitions: Seq<(Seq<char>, NodeType)>,
    items: Seq<(Seq<char>, SchemaView)>,
) -> Seq<(Seq<char>, SchemaView)> {
    items.map_values(
        |d: (Seq<char>, SchemaView)| restricted(scope, surface, plus_prefixed, definitions, d),
    )
}

/// Of a restricted definition exactly those properties are left of which none of the
/// listed resource types calls the key invalid.
pub proof fn invalid_keys_are_gone(
    scope: WarehouseScope,
    surface: Surface,
    plus_prefixed: bool,
    definitions: Seq<(Seq<char>, NodeType)>,
    name: Seq<char>,
    properties: Seq<(Seq<char>, SchemaView)>,
    property: (Seq<char>, SchemaView),
)
    ensures
        kept_properties(scope, surface, plus_prefixed, definitions, name, properties).contains(
            property,
        ) <==> properties.contains(property) && !is_removed(
            scope,
            surface,
            plus_prefixed,
            definitions,
            name,
            property.0,
        ),
    decreases properties.len(),
{
    let all = kept_properties(scope, surface, plus_prefixed, definitions, name, properties);
    if properties.len() > 0 {
        let front = properties.drop_last();
        let rest = kept_properties(scope, surface, plus_prefixed, definitions, name, front);
        invalid_keys_are_gone(
            scope,
            surface,
            plus_prefixed,
            definitions,
            name,
            front,
            property,
        );
        assert(properties =~= front.push(properties.last()));
        assert(properties.contains(property) <==> front.contains(property) || property
            == properties.last()) by {
            if front.contains(property) {
                let i = choose|i: int| 0 <= i < front.len() && front[i] == property;
                assert(properties[i] == property);
            }
            if property == properties.last() {
                assert(properties[properties.len() - 1] == property);
            }
        }
        assert(rest.push(properties.last()).contains(property) <==> rest.contains(property)
            || property == properties.last()) by {
            let grown = rest.push(properties.last());
            if rest.contains(property) {
                let i = choose|i: int| 0 <= i < rest.len() && rest[i] == property;
                assert(grown[i] == property);
            }
            if property == properties.last() {
                assert(grown[rest.len() as int] == property);
            }
        }
    }
}

fn strip_plus(property: &str, plus_prefixed: bool) -> (r: Option<String>)
    ensures
        crate::json::opt(r) == warehouse_key(property@, plus_prefixed),
{
    if !plus_prefixed {
        return Some(property.to_owned());
    }
    let chars = to_chars(property);
    if chars.len() > 0 && chars[0] == '+' {
        assert(property@.skip(1) =~= property@.subrange(1, property@.len() as int));
        Some(from_range(&chars, 1, chars.len()))
    } else {
        None
    }
}

fn removes(
    scope: &WarehouseScope,
    surface: Surface,
    plus_prefixed: bool,
    definitions: &Vec<ConfigDefinition>,
    name: &str,
    property: &str,
) -> (r: bool)
    ensures
        r == is_removed(
            *scope,
            surface,
            plus_prefixed,
            definitions_view(definitions@),
            name@,
            property@,
        ),
{
    let ghost all = definitions_view(definitions@);
    let key = match strip_plus(property, plus_prefixed) {
        Some(key) => key,
        None => {
            return false;
        },
    };
    let mut i: usize = 0;
    while i < definitions.len()
        invariant
            i <= definitions.len(),
            all == definitions_view(definitions@),
            warehouse_key(property@, plus_prefixed) == Some(key@),
            forall|k: int|
                0 <= k < i ==> !((#[trigger] all[k]).0 == name@ && is_invalid(
                    *scope,
                    surface,
                    plus_prefixed,
                    all[k].1,
                    property@,
                )),
        decreases definitions.len() - i,
    {
        let d = &definitions[i];
        assert(all[i as int] == (d.name@, d.resource));
        if same(d.name.as_str(), name) {
            let s = match surface {
                Surface::Resolved => resolved_surface_key_status(scope, d.resource, key.as_str()),
                Surface::Project => project_surface_key_status(scope, d.resource, key.as_str()),
            };
            if s == KeyStatus::Invalid {
                return true;
            }
        }
        i += 1;
    }
    false
}

fn keep_properties(
    scope: &WarehouseScope,
    surface: Surface,
    plus_prefixed: bool,
    definitions: &Vec<ConfigDefinition>,
    name: &str,
    properties: Vec<(String, Schema)>,
) -> (r: Vec<(String, Schema)>)
    ensures
        named_view(r@) == kept_properties(
            *scope,
            surface,
            plus_prefixed,
            definitions_view(definitions@),
            name@,
            named_view(properties@),
        ),
{
    let ghost all = properties@;
    let mut rest = properties;
    let mut made: Vec<(String, Schema)> = Vec::new();
    let ghost mut i: int = 0;
    while rest.len() > 0
        invariant
            0 <= i <= all.len(),
            rest@ == all.skip(i),
            named_view(made@) == kept_properties(
                *scope,
                surface,
                plus_prefixed,
                definitions_view(definitions@),
                name@,
                named_view(all.take(i)),
            ),
        decreases rest.len(),
    {
        let ghost before = made@;
        let item = rest.remove(0);
        proof {
            assert(item == all[i]);
            assert(rest@ =~= all.skip(i + 1));
            assert(all.take(i + 1) =~= all.take(i).push(all[i]));
            named_view_grows(all.take(i), all[i]);
            assert(named_view(all.take(i + 1)).drop_last() =~= named_view(all.take(i)));
        }
        if !removes(scope, surface, plus_prefixed, definitions, name, item.0.as_str()) {
            made.push(item);
            proof {
                named_view_grows(before, item);
            }
        }
        proof {
            i = i + 1;
        }
    }
    assert(all.take(i) =~= all);
    made
}

/// Removes from the named definitions the properties for warehouse keys that are invalid for
/// their resource types.
pub fn restrict_warehouse_config_properties_with(
    root: RootSchema,
    definitions: &Vec<ConfigDefinition>,
    plus_prefixed: bool,
    scope: &WarehouseScope,
    surface: Surface,
) -> (r: RootSchema)
    ensures
        r@ == (RootView {
            schema: root@.schema,
            definitions: all_restricted(
                *scope,
                surface,
                plus_prefixed,
                definitions_view(definitions@),
                root@.definitions,
            ),
        }),
{
    let ghost all = root.definitions@;
    let ghost named = definitions_view(definitions@);
    let mut rest = root.definitions;
    let mut made: Vec<(String, Schema)> = Vec::new();
    let ghost mut i: int = 0;
    proof {
        assert(named_view(made@) =~= all_restricted(
            *scope,
            surface,
            plus_prefixed,
            named,
            named_view(all.take(0)),
        ));
    }
    while rest.len() > 0
        invariant
            0 <= i <= all.len(),
            rest@ == all.skip(i),
            named == definitions_view(definitions@),
            named_view(made@) == all_restricted(
                *scope,
                surface,
                plus_prefixed,
                named,
                named_view(all.take(i)),
            ),
        decreases rest.len(),
    {
        let ghost before = made@;
        let item = rest.remove(0);
        proof {
            assert(item == all[i]);
            assert(rest@ =~= all.skip(i + 1));
            assert(all.take(i + 1) =~= all.take(i).push(all[i]));
            named_view_grows(all.take(i), all[i]);
        }
        let (name, schema) = item;
        let schema = match schema {
            Schema::Object(o) => if o.validates_objects {
                let properties = keep_properties(
                    scope,
                    surface,
                    plus_prefixed,
                    definitions,
                    name.as_str(),
                    o.properties,
                );
                Schema::Object(
                    SchemaObject {
                        instance_types: o.instance_types,
                        validates_objects: o.validates_objects,
                        properties,
                        pattern_properties: o.pattern_properties,
                        additional_properties: o.additional_properties,
                        combines: o.combines,
                        subschemas: o.subschemas,
                        rest: o.rest,
                    },
                )
            } else {
                Schema::Object(o)
            },
            Schema::Boolean(b) => Schema::Boolean(b),
        };
        let kept = (name, schema);
        made.push(kept);
        proof {
            named_view_grows(before, kept);
            let one = (all[i].0@, schema_view(all[i].1));
            assert((kept.0@, schema_view(kept.1)) == restricted(
                *scope,
                surface,
                plus_prefixed,
                named,
                one,
            ));
            assert(named_view(made@) =~= all_restricted(
                *scope,
                surface,
                plus_prefixed,
                named,
                named_view(all.take(i + 1)),
            ));
            i = i + 1;
        }
    }
    assert(all.take(i) =~= all);
    RootSchema { schema: root.schema, definitions: made }
}

// ---------------------------------------------------------------------------
// The schemas that are shown
// ---------------------------------------------------------------------------

/// The definitions of the configs of all resource types, after a prefix.
pub open spec fn configs(prefix: Seq<char>) -> Seq<(Seq<char>, NodeType)> {
    Seq::empty().push((prefix + "ModelConfig"@, NodeType::Model)).push(
        (prefix + "SeedConfig"@, NodeType::Seed),
    ).push((prefix + "SnapshotConfig"@, NodeType::Snapshot)).push(
        (prefix + "SourceConfig"@, NodeType::Source),
    ).push((prefix + "DataTestConfig"@, NodeType::Test)).push(
        (prefix + "UnitTestConfig"@, NodeType::UnitTest),
    ).push((prefix + "FunctionConfig"@, NodeType::Function))
}

fn push_config(
    definitions: &mut Vec<ConfigDefinition>,
    prefix: &str,
    name: &str,
    resource: NodeType,
)
    ensures
        definitions_view(final(definitions)@) == definitions_view(old(definitions)@).push(
            (prefix@ + name@, resource),
        ),
{
    let ghost before = definitions_view(definitions@);
    definitions.push(ConfigDefinition { name: prefix.to_owned().concat(name), resource });
    assert(definitions_view(definitions@) =~= before.push((prefix@ + name@, resource)));
}

fn configs_after(prefix: &str) -> (r: Vec<ConfigDefinition>)
    ensures
        definitions_view(r@) == configs(prefix@),
{
    let mut r: Vec<ConfigDefinition> = Vec::new();
    assert(definitions_view(r@) =~= Seq::empty());
    push_config(&mut r, prefix, "ModelConfig", NodeType::Model);
    push_config(&mut r, prefix, "SeedConfig", NodeType::Seed);
    push_config(&mut r, prefix, "SnapshotConfig", NodeType::Snapshot);
    push_config(&mut r, prefix, "SourceConfig", NodeType::Source);
    push_config(&mut r, prefix, "DataTestConfig", NodeType::Test);
    push_config(&mut r, prefix, "UnitTestConfig", NodeType::UnitTest);
    push_config(&mut r, prefix, "FunctionConfig", NodeType::Function);
    r
}

pub fn config_definitions() -> (r: Vec<ConfigDefinition>)
    ensures
        definitions_view(r@) == configs(""@),
{
    configs_after("")
}

pub fn project_config_definitions() -> (r: Vec<ConfigDefinition>)
    ensures
        definitions_view(r@) == configs("Project"@),
{
    configs_after("Project")
}

pub fn restrict_warehouse_config_properties(root: RootSchema, scope: &WarehouseScope) -> (r:
    RootSchema)
    ensures
        r@ == (RootView {
            schema: root@.schema,
            definitions: all_restricted(
                *scope,
                Surface::Resolved,
                false,
                configs(""@),
                root@.definitions,
            ),
        }),
{
    restrict_warehouse_config_properties_with(
        root,
        &config_definitions(),
        false,
        scope,
        Surface::Resolved,
    )
}

pub fn restrict_project_warehouse_config_properties(root: RootSchema, scope: &WarehouseScope) -> (r:
    RootSchema)
    ensures
        r@ == (RootView {
            schema: root@.schema,
            definitions: all_restricted(
                *scope,
                Surface::Project,
                true,
                configs("Project"@),
                root@.definitions,
            ),
        }),
{
    restrict_warehouse_config_properties_with(
        root,
        &project_config_definitions(),
        true,
        scope,
        Surface::Project,
    )
}

#[derive(Debug, Clone, Copy, PartialEq, Eq, Structural)]
pub enum JsonSchemaTypes {
    Profile,
    Project,
    Selector,
    Schema,
    DbtCloud,
    Packages,
    Dependencies,
    Telemetry,
    Catalogs,
}

/// A schema as it is shown: telemetry's and the catalogs' as they are, the other ones
/// without additional properties, and those that hold configs without the warehouse keys
/// that are invalid in them.
pub open spec fn shown(kind: JsonSchemaTypes, root: RootView, scope: WarehouseScope) -> RootView {
    let closed = RootView {
        schema: denied(root.schema, false),
        definitions: denied_patterns(root.definitions, false),
    };
    match kind {
        JsonSchemaTypes::Telemetry | JsonSchemaTypes::Catalogs => root,
        JsonSchemaTypes::Project => RootView {
            schema: closed.schema,
            definitions: all_restricted(
                scope,
                Surface::Project,
                true,
                configs("Project"@),
                closed.definitions,
            ),
        },
        JsonSchemaTypes::Schema => RootView {
            schema: closed.schema,
            definitions: all_restricted(
                scope,
                Surface::Resolved,
                false,
                configs(""@),
                closed.definitions,
            ),
        },
        _ => closed,
    }
}

pub fn shown_schema(kind: JsonSchemaTypes, root: RootSchema, scope: &WarehouseScope) -> (r:
    RootSchema)
    ensures
        r@ == shown(kind, root@, *scope),
{
    match kind {
        JsonSchemaTypes::Telemetry | JsonSchemaTypes::Catalogs => root,
        JsonSchemaTypes::Project => restrict_project_warehouse_config_properties(
            deny_additional_properties_in_root(root),
            scope,
        ),
        JsonSchemaTypes::Schema => restrict_warehouse_config_properties(
            deny_additional_properties_in_root(root),
            scope,
        ),
        _ => deny_additional_properties_in_root(root),
    }
}

pub open spec fn lowered(names: Seq<Seq<char>>) -> Seq<Seq<char>> {
    names.map_values(|n: Seq<char>| unicode_lower(n))
}

/// The refusal where no schema was asked for; it names the schemas that there are.
pub open spec fn refusal(available: Seq<Seq<char>>) -> Seq<char> {
    "Please provide a --schema <SCHEMA>, where <SCHEMA> is one of "@ + join(
        lowered(available),
        ", "@,
    )
}

fn refuse(available: &Vec<String>) -> (r: String)
    ensures
        r@ == refusal(views(available@)),
{
    let mut names: Vec<String> = Vec::new();
    let mut i: usize = 0;
    while i < available.len()
        invariant
            i <= available.len(),
            names.len() == i,
            forall|k: int| 0 <= k < i ==> (#[trigger] names@[k])@ == unicode_lower(available@[k]@),
        decreases available.len() - i,
    {
        names.push(to_lowercase(available[i].as_str()));
        i += 1;
    }
    assert(views(names@) =~= lowered(views(available@)));
    "Please provide a --schema <SCHEMA>, where <SCHEMA> is one of ".to_owned().concat(
        joined(&names, ", ").as_str(),
    )
}

/// A schema that was asked for, as it is generated.
#[derive(Debug)]
pub struct RequestedSchema {
    pub kind: JsonSchemaTypes,
    pub root: RootSchema,
}

/// The schemas to show, one for each that was asked for; without any, the refusal that
/// names the schemas that there are.
pub fn execute_man_command(
    requested: Vec<RequestedSchema>,
    available: &Vec<String>,
    scope: &WarehouseScope,
) -> (r: Result<Vec<RootSchema>, FsError>)
    ensures
        match r {
            Err(e) => requested.len() == 0 && e@ == (FsErrorView {
                code: ErrorCode::InvalidArgument,
                message: refusal(views(available@)),
            }),
            Ok(roots) => {
                &&& requested.len() > 0
                &&& roots.len() == requested.len()
                &&& forall|i: int|
                    0 <= i < roots.len() ==> (#[trigger] roots@[i])@ == shown(
                        requested@[i].kind,
                        requested@[i].root@,
                        *scope,
                    )
            },
        },
{
    if requested.len() == 0 {
        return Err(FsError::new(ErrorCode::InvalidArgument, refuse(available)));
    }
    let ghost all = requested@;
    let mut rest = requested;
    let mut roots: Vec<RootSchema> = Vec::new();
    assert(rest@ =~= all.skip(0));
    while rest.len() > 0
        invariant
            roots.len() <= all.len(),
            rest@ == all.skip(roots.len() as int),
            all == requested@,
            forall|i: int|
                0 <= i < roots.len() ==> (#[trigger] roots@[i])@ == shown(
                    all[i].kind,
                    all[i].root@,
                    *scope,
                ),
        decreases rest.len(),
    {
        let ghost n = roots.len() as int;
        let next = rest.remove(0);
        assert(next == all[n]);
        assert(rest@ =~= all.skip(n + 1));
        roots.push(shown_schema(next.kind, next.root, scope));
    }
    Ok(roots)
}

} // verus!
