//! Warehouse keys, and the schemas that are shown.

use dbt_fusion::json::Json;
use dbt_fusion::schemas::man::{
    config_definitions, deny_additional_properties_in_root, execute_man_command, project_config_definitions,
    restrict_warehouse_config_properties_with, shown_schema, ConfigDefinition, InstanceType,
    JsonSchemaTypes, RequestedSchema, RootSchema, Schema, SchemaObject, Surface,
};
use dbt_fusion::schemas::warehouse_scope::{
    project_surface_key_status, resolved_surface_key_status,
    warn_and_strip_deprecated_warehouse_keys, KeyRule, KeyStatus, MappingEntry, WarehouseScope,
    WarningEmission,
};
use dbt_fusion::wap::nodes::{ErrorCode, NodeType};

const RESOURCES: [NodeType; 7] = [
    NodeType::Model,
    NodeType::Seed,
    NodeType::Snapshot,
    NodeType::Source,
    NodeType::Test,
    NodeType::UnitTest,
    NodeType::Function,
];

fn scope(keys: &[&str], rules: &[(NodeType, &str, KeyStatus)]) -> WarehouseScope {
    WarehouseScope {
        keys: keys.iter().map(|k| k.to_string()).collect(),
        rules: rules
            .iter()
            .map(|(resource, key, status)| KeyRule {
                resource: *resource,
                key: key.to_string(),
                status: *status,
            })
            .collect(),
    }
}

#[test]
fn derive_emits_each_lifecycle_state() {
    let synthetic = scope(
        &["example"],
        &[
            (NodeType::Model, "example", KeyStatus::Valid),
            (NodeType::Seed, "example", KeyStatus::Stale),
            (NodeType::Source, "example", KeyStatus::Invalid),
        ],
    );
    assert_eq!(
        synthetic.key_status(NodeType::Model, "example"),
        KeyStatus::Valid
    );
    assert_eq!(
        synthetic.key_status(NodeType::Seed, "example"),
        KeyStatus::Stale
    );
    assert_eq!(
        synthetic.key_status(NodeType::Source, "example"),
        KeyStatus::Invalid
    );
    assert_eq!(
        synthetic.key_status(NodeType::Snapshot, "example"),
        KeyStatus::ResolvedOnly
    );
}

fn warehouse() -> WarehouseScope {
    scope(
        &["immutable_where", "partition_by"],
        &[
            (NodeType::Model, "immutable_where", KeyStatus::Valid),
            (NodeType::Model, "partition_by", KeyStatus::Valid),
        ],
    )
}

#[test]
fn resolved_only_is_surface_specific() {
    let whc = warehouse();
    assert_eq!(
        whc.key_status(NodeType::Source, "immutable_where"),
        KeyStatus::ResolvedOnly
    );
    assert_eq!(
        resolved_surface_key_status(&whc, NodeType::Source, "immutable_where"),
        KeyStatus::Stale
    );
    assert_eq!(
        project_surface_key_status(&whc, NodeType::Source, "immutable_where"),
        KeyStatus::Invalid
    );
}

#[test]
fn known_keys_are_never_unknown() {
    let whc = warehouse();
    for key in &whc.keys {
        for resource in RESOURCES {
            assert_ne!(
                whc.key_status(resource, key),
                KeyStatus::Unknown,
                "warehouse key `{key}` reported Unknown for {resource:?}"
            );
        }
    }
}

#[test]
fn unrecognized_key_is_unknown_everywhere() {
    for resource in RESOURCES {
        assert_eq!(
            warehouse().key_status(resource, "not_a_real_warehouse_key"),
            KeyStatus::Unknown
        );
    }
}

fn synthetic_status(key: &str) -> KeyStatus {
    match key {
        "a_valid_key" => KeyStatus::Valid,
        "a_stale_key" => KeyStatus::Stale,
        "an_invalid_key" => KeyStatus::Invalid,
        _ => KeyStatus::Unknown,
    }
}

fn mapping_with_keys(keys: &[&str]) -> Vec<MappingEntry> {
    keys.iter()
        .map(|key| MappingEntry {
            key: Some(key.to_string()),
            value: Json::Text("some_value".to_string()),
        })
        .collect()
}

fn keys(mapping: &[MappingEntry]) -> Vec<Option<&str>> {
    mapping.iter().map(|e| e.key.as_deref()).collect()
}

#[test]
fn valid_and_unknown_keys_are_left_untouched() {
    let mapping = mapping_with_keys(&["a_valid_key", "a_truly_unrecognized_key"]);
    let (mapping, warnings) = warn_and_strip_deprecated_warehouse_keys(
        &mapping,
        Some("test"),
        "model",
        WarningEmission::Emit,
        synthetic_status,
    );
    assert_eq!(
        keys(&mapping),
        vec![Some("a_valid_key"), Some("a_truly_unrecognized_key")]
    );
    assert!(warnings.is_empty());
}

#[test]
fn stale_key_is_kept_not_dropped() {
    let mapping = mapping_with_keys(&["a_stale_key"]);
    let (mapping, warnings) = warn_and_strip_deprecated_warehouse_keys(
        &mapping,
        Some("test"),
        "model",
        WarningEmission::Emit,
        synthetic_status,
    );
    assert_eq!(keys(&mapping), vec![Some("a_stale_key")]);
    assert_eq!(mapping[0].value, Json::Text("some_value".to_string()));
    assert_eq!(
        warnings[0].message,
        "Config `a_stale_key` (under `test`) for resource type `model` is deprecated and may \
         stop being supported in a future release. It is still applied."
    );
}

#[test]
fn invalid_key_is_removed() {
    let mapping = mapping_with_keys(&["an_invalid_key", "a_valid_key"]);
    let (mapping, warnings) = warn_and_strip_deprecated_warehouse_keys(
        &mapping,
        Some("test"),
        "model",
        WarningEmission::Emit,
        synthetic_status,
    );
    assert_eq!(keys(&mapping), vec![Some("a_valid_key")]);
    assert_eq!(warnings.len(), 1);
    assert_eq!(warnings[0].entry, 0);
}

#[test]
fn non_string_keys_are_left_untouched() {
    let mapping = vec![MappingEntry {
        key: None,
        value: Json::Text("x".to_string()),
    }];
    let (mapping, _) = warn_and_strip_deprecated_warehouse_keys(
        &mapping,
        Some("test"),
        "model",
        WarningEmission::Emit,
        synthetic_status,
    );
    assert_eq!(mapping.len(), 1);
}

#[test]
fn suppressed_warnings_are_not_given() {
    let mapping = mapping_with_keys(&["an_invalid_key", "a_stale_key"]);
    let (mapping, warnings) = warn_and_strip_deprecated_warehouse_keys(
        &mapping,
        None,
        "seed",
        WarningEmission::Suppress,
        synthetic_status,
    );
    assert_eq!(keys(&mapping), vec![Some("a_stale_key")]);
    assert!(warnings.is_empty());
    let (_, warnings) = warn_and_strip_deprecated_warehouse_keys(
        &mapping_with_keys(&["an_invalid_key"]),
        None,
        "seed",
        WarningEmission::Emit,
        synthetic_status,
    );
    assert_eq!(
        warnings[0].message,
        "Config `an_invalid_key` for resource type `seed` is not a valid config here and is \
         ignored."
    );
}

#[test]
fn what_a_project_accepts_is_accepted_when_resolved() {
    let whc = warehouse();
    for resource in RESOURCES {
        for key in ["immutable_where", "partition_by", "other"] {
            if project_surface_key_status(&whc, resource, key) != KeyStatus::Invalid {
                assert_ne!(
                    resolved_surface_key_status(&whc, resource, key),
                    KeyStatus::Invalid
                );
            }
        }
    }
}

// ---------------------------------------------------------------------------
// Schemas
// ---------------------------------------------------------------------------

fn object(properties: Vec<(&str, Schema)>) -> SchemaObject {
    SchemaObject {
        instance_types: Some(vec![InstanceType::Object]),
        validates_objects: true,
        properties: properties
            .into_iter()
            .map(|(k, v)| (k.to_string(), v))
            .collect(),
        pattern_properties: Vec::new(),
        additional_properties: Vec::new(),
        combines: false,
        subschemas: Vec::new(),
        rest: "{}".to_string(),
    }
}

fn text() -> Schema {
    Schema::Object(SchemaObject {
        instance_types: Some(vec![InstanceType::Text]),
        validates_objects: false,
        ..object(Vec::new())
    })
}

fn root_with(definitions: &[ConfigDefinition], properties: &[&str]) -> RootSchema {
    RootSchema {
        schema: Schema::Object(object(Vec::new())),
        definitions: definitions
            .iter()
            .map(|d| {
                (
                    d.name.clone(),
                    Schema::Object(object(properties.iter().map(|p| (*p, text())).collect())),
                )
            })
            .collect(),
    }
}

fn has_property(root: &RootSchema, definition: &str, property: &str) -> bool {
    let found = root.definitions.iter().find(|d| d.0 == definition);
    match &found.unwrap().1 {
        Schema::Object(o) => o.properties.iter().any(|p| p.0 == property),
        Schema::Boolean(_) => panic!("{definition} must be an object schema"),
    }
}

fn invalid_for(resource: NodeType, key: &str) -> WarehouseScope {
    let mut rules = vec![(resource, key, KeyStatus::Invalid)];
    for r in RESOURCES {
        rules.push((r, "immutable_where", KeyStatus::Valid));
        rules.push((r, "partition_by", KeyStatus::Valid));
    }
    scope(&["immutable_where", "partition_by"], &rules)
}

#[test]
fn schema_removes_invalid_warehouse_keys_per_resource() {
    let definitions = config_definitions();
    let root = root_with(&definitions, &["immutable_where", "enabled"]);
    let root = restrict_warehouse_config_properties_with(
        root,
        &definitions,
        false,
        &invalid_for(NodeType::Source, "immutable_where"),
        Surface::Resolved,
    );

    assert!(!has_property(&root, "SourceConfig", "immutable_where"));
    assert!(has_property(&root, "ModelConfig", "immutable_where"));
    assert!(has_property(&root, "SourceConfig", "enabled"));
}

#[test]
fn project_schema_removes_invalid_warehouse_keys_per_resource() {
    let definitions = project_config_definitions();
    let root = root_with(&definitions, &["+partition_by", "partition_by"]);
    let root = restrict_warehouse_config_properties_with(
        root,
        &definitions,
        true,
        &invalid_for(NodeType::Model, "partition_by"),
        Surface::Project,
    );

    assert!(!has_property(&root, "ProjectModelConfig", "+partition_by"));
    assert!(has_property(&root, "ProjectModelConfig", "partition_by"));
    assert!(has_property(&root, "ProjectSeedConfig", "+partition_by"));
}

fn additional(schema: &Schema) -> Option<bool> {
    match schema {
        Schema::Object(o) => o.additional_properties.first().map(|a| match a {
            Schema::Boolean(b) => *b,
            Schema::Object(_) => true,
        }),
        Schema::Boolean(_) => None,
    }
}

#[test]
fn additional_properties_are_denied_but_below_open_ones() {
    let open = Schema::Object(SchemaObject {
        additional_properties: vec![Schema::Boolean(true)],
        ..object(Vec::new())
    });
    let typed = Schema::Object(SchemaObject {
        additional_properties: vec![text()],
        ..object(Vec::new())
    });
    let either = Schema::Object(SchemaObject {
        instance_types: None,
        validates_objects: false,
        combines: true,
        subschemas: vec![Schema::Object(object(Vec::new())), text()],
        ..object(Vec::new())
    });
    let root = RootSchema {
        schema: Schema::Object(object(vec![
            ("meta", open),
            ("typed", typed),
            ("either", either),
            ("inner", Schema::Object(object(vec![("x", text())]))),
        ])),
        definitions: vec![("D".to_string(), Schema::Object(object(Vec::new())))],
    };
    let root = deny_additional_properties_in_root(root);
    assert_eq!(additional(&root.schema), Some(false));
    assert_eq!(additional(&root.definitions[0].1), Some(false));
    match &root.schema {
        Schema::Object(o) => {
            assert_eq!(additional(&o.properties[0].1), Some(true));
            assert_eq!(additional(&o.properties[1].1), Some(true));
            match &o.properties[2].1 {
                Schema::Object(e) => {
                    assert_eq!(additional(&e.subschemas[0]), Some(false));
                    assert_eq!(additional(&e.subschemas[1]), None);
                }
                Schema::Boolean(_) => panic!("an object"),
            }
            assert_eq!(additional(&o.properties[3].1), Some(false));
        }
        Schema::Boolean(_) => panic!("an object"),
    }
}

#[test]
fn only_meta_is_left_open() {
    let part = || Schema::Object(object(Vec::new()));
    let root = RootSchema {
        schema: Schema::Object(object(vec![
            ("grants", part()),
            ("column_types", part()),
            ("meta", Schema::Object(object(vec![("inner", part())]))),
        ])),
        definitions: Vec::new(),
    };
    let root = deny_additional_properties_in_root(root);
    assert_eq!(additional(&root.schema), Some(false));
    let Schema::Object(o) = &root.schema else {
        panic!("an object");
    };
    assert_eq!(additional(&o.properties[0].1), Some(false));
    assert_eq!(additional(&o.properties[1].1), Some(false));
    assert_eq!(additional(&o.properties[2].1), None);
    let Schema::Object(meta) = &o.properties[2].1 else {
        panic!("an object");
    };
    assert_eq!(additional(&meta.properties[0].1), None);
}

#[test]
fn schemas_are_shown_by_their_kind() {
    let root = || root_with(&project_config_definitions(), &["+partition_by"]);
    let scope = invalid_for(NodeType::Model, "partition_by");
    let telemetry = shown_schema(JsonSchemaTypes::Telemetry, root(), &scope);
    assert_eq!(additional(&telemetry.schema), None);
    let profile = shown_schema(JsonSchemaTypes::Profile, root(), &scope);
    assert_eq!(additional(&profile.schema), Some(false));
    assert!(has_property(&profile, "ProjectModelConfig", "+partition_by"));
    let project = shown_schema(JsonSchemaTypes::Project, root(), &scope);
    assert_eq!(additional(&project.schema), Some(false));
    assert!(!has_property(&project, "ProjectModelConfig", "+partition_by"));
    let schema = shown_schema(JsonSchemaTypes::Schema, root(), &scope);
    assert!(has_property(&schema, "ProjectModelConfig", "+partition_by"));
}

#[test]
fn a_schema_has_to_be_asked_for() {
    let available = vec!["Profile".to_string(), "DbtCloud".to_string()];
    let scope = invalid_for(NodeType::Model, "partition_by");
    let error = execute_man_command(Vec::new(), &available, &scope).unwrap_err();
    assert_eq!(error.code, ErrorCode::InvalidArgument);
    assert_eq!(
        error.message,
        "Please provide a --schema <SCHEMA>, where <SCHEMA> is one of profile, dbtcloud"
    );
    let requested = |kind| RequestedSchema {
        kind,
        root: root_with(&project_config_definitions(), &["+partition_by"]),
    };
    let shown = execute_man_command(
        vec![
            requested(JsonSchemaTypes::Telemetry),
            requested(JsonSchemaTypes::Project),
        ],
        &available,
        &scope,
    )
    .unwrap();
    assert_eq!(shown.len(), 2);
    assert_eq!(additional(&shown[0].schema), None);
    assert!(has_property(&shown[0], "ProjectModelConfig", "+partition_by"));
    assert!(!has_property(&shown[1], "ProjectModelConfig", "+partition_by"));
}
