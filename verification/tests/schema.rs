//! The registry of internal schemas and the conversion between versions.

use stellar_k8s::clock::Timestamp;
use stellar_k8s::crd::internal_api_schema::{ConsumerDeploymentPolicy, InternalApiSchemaSpec};
use stellar_k8s::error::Error;
use stellar_k8s::json::Json;
use stellar_k8s::schema_evolution::audit::{ConversionAuditEvent, ConversionAuditRingBuffer};
use stellar_k8s::schema_evolution::convert::{
    can_apply_conversion, find_conversion_path, validate_migration_graph, SchemaMigration,
    SchemaMigrationGraph, SchemaVersionConverter,
};
use stellar_k8s::schema_evolution::fields::{
    can_apply_mapping, can_apply_mappings, can_hold_fields, can_remove_field, field_exists, get_field_value, remove_field_value, set_field_value, FieldMapping,
    TransformationType,
};
use stellar_k8s::schema_registry::compat::{
    check_compatibility, CompatibilityMode,
};
use stellar_k8s::schema_registry::deployment::{
    validate_consumer_deployment, validate_deployment_pin, verify_internal_coverage,
    INTERNAL_SCHEMA_SUBJECTS,
};
use stellar_k8s::schema_registry::migration::MigrationAction;
use stellar_k8s::schema_registry::model::{
    ApprovalStatus, Consumer, RegistryOverride, SchemaFormat, SchemaSubject,
};
use stellar_k8s::schema_registry::protobuf::protobuf_declarations;
use stellar_k8s::schema_registry::registry::{floats, SchemaRegistry};
use stellar_k8s::str_map::StrMap;

fn convert(v: &serde_json::Value) -> Json {
    match v {
        serde_json::Value::Null => Json::Null,
        serde_json::Value::Bool(b) => Json::Bool(*b),
        serde_json::Value::Number(n) => Json::Number(n.to_string()),
        serde_json::Value::String(s) => Json::Text(s.clone()),
        serde_json::Value::Array(a) => Json::List(a.iter().map(convert).collect()),
        serde_json::Value::Object(m) => {
            let mut r = StrMap::new();
            for (k, x) in m {
                r.insert(k.clone(), convert(x));
            }
            Json::Object(r)
        }
    }
}

fn json(text: &str) -> Json {
    convert(&serde_json::from_str(text).unwrap())
}

fn s() -> Json {
    json(r#"{"type":"object","required":["id"],"properties":{"id":{"type":"string"}}}"#)
}

fn broken() -> Json {
    json(r#"{"type":"object","required":[],"properties":{}}"#)
}

fn pins(subject: &str, version: u32) -> StrMap<u32> {
    let mut r = StrMap::new();
    r.insert(subject.to_string(), version);
    r
}

fn consumer(name: &str, version: u32, client: Option<&str>) -> Consumer {
    Consumer {
        name: name.to_string(),
        owner: "team".to_string(),
        pinned_versions: pins("events", version),
        generated_client: client.map(|c| c.to_string()),
    }
}

fn overriding(id: &str) -> RegistryOverride {
    RegistryOverride {
        id: id.to_string(),
        subject: "events".to_string(),
        reason: "migration".to_string(),
        requested_by: "a".to_string(),
        approved_by: "lead".to_string(),
        created_at: 0,
        consumed: false,
    }
}

/// A registry with one approved version of `events`.
fn registry() -> SchemaRegistry {
    let mut r = SchemaRegistry::new();
    r.create_subject(SchemaSubject::new("events", "internal"));
    r.register_version("events", s(), SchemaFormat::JsonSchema, "a").unwrap();
    r.approve_version("events", 1, "a");
    r
}

/// A registry of every internal schema, pinned by Horizon.
fn internal_registry() -> SchemaRegistry {
    let mut r = SchemaRegistry::new();
    for name in INTERNAL_SCHEMA_SUBJECTS {
        r.create_subject(SchemaSubject::new(name, "internal"));
        assert_eq!(r.register_version(name, s(), SchemaFormat::JsonSchema, "core"), Ok(1));
        assert!(r.approve_version(name, 1, "lead"));
    }
    let mut pinned = pins("stellar.ledger.events", 1);
    pinned.insert("stellar.scp.message".to_string(), 1);
    r.register_consumer(Consumer {
        name: "horizon".to_string(),
        owner: "horizon".to_string(),
        pinned_versions: pinned,
        generated_client: Some("github.com/otowo/stellar-go/horizon@v1.0.0".to_string()),
    })
    .unwrap();
    r
}

#[test]
fn consumer_pins_and_impact() {
    let mut r = SchemaRegistry::new();
    r.create_subject(SchemaSubject::new("events", "internal"));
    assert_eq!(r.register_version("events", s(), SchemaFormat::JsonSchema, "a"), Ok(1));
    r.approve_version("events", 1, "a");
    r.register_consumer(consumer("horizon", 1, Some("horizon-v1"))).unwrap();
    let report = r.impact("events", &broken());
    assert!(report.breaking);
    assert_eq!(report.consumers.len(), 1);
    assert!(!report.consumers[0].issues.is_empty());
}

#[test]
fn breaking_requires_audited_override() {
    let mut r = registry();
    assert!(r.register_version("events", broken(), SchemaFormat::JsonSchema, "a").is_err());
    r.add_override(overriding("ovr-1")).unwrap();
    assert_eq!(
        r.register_version_with_override(
            "events",
            broken(),
            SchemaFormat::JsonSchema,
            "a",
            Some("ovr-1")
        ),
        Ok(2)
    );
    assert!(r.audit().iter().any(|a| a.detail.contains("ovr-1")));
}

#[test]
fn nested_types_are_checked() {
    let a = json(
        r#"{"type":"object","properties":{"x":{"type":"object","properties":{"id":{"type":"string"}}}}}"#,
    );
    let b = json(
        r#"{"type":"object","properties":{"x":{"type":"object","properties":{"id":{"type":"integer"}}}}}"#,
    );
    assert!(!check_compatibility(&a, &b, CompatibilityMode::Backward).compatible);
}

#[test]
fn committed_registry_covers_every_internal_schema() {
    let registry = internal_registry();
    verify_internal_coverage(&registry).unwrap();
    assert_eq!(registry.snapshot().subjects.len(), INTERNAL_SCHEMA_SUBJECTS.len());
}

#[test]
fn missing_internal_schema_is_named() {
    let error = verify_internal_coverage(&SchemaRegistry::new()).unwrap_err();
    assert!(error.contains(INTERNAL_SCHEMA_SUBJECTS[0]), "{error}");
}

#[test]
fn thousand_consumer_gate_is_well_under_thirty_seconds() {
    let mut r = registry();
    for i in 0..1000 {
        r.register_consumer(consumer(&format!("consumer-{i}"), 1, None)).unwrap();
    }
    let started = std::time::Instant::now();
    let report = r.impact("events", &s());
    assert!(!report.breaking);
    assert_eq!(report.consumers.len(), 1000);
    assert!(started.elapsed() < std::time::Duration::from_secs(30));
}

#[test]
fn modes_cover_all_compatibility_policies() {
    let old = json(r#"{"type":"object","required":[],"properties":{"a":{"type":"string"}}}"#);
    let new = json(r#"{"type":"object","required":["a"],"properties":{"a":{"type":"string"}}}"#);
    assert!(check_compatibility(&old, &new, CompatibilityMode::Backward).compatible);
    assert!(!check_compatibility(&old, &new, CompatibilityMode::Forward).compatible);
    assert!(!check_compatibility(&old, &new, CompatibilityMode::Full).compatible);
    assert!(check_compatibility(&old, &broken(), CompatibilityMode::Unchecked).compatible);
}

#[test]
fn invalid_consumer_pins_are_rejected() {
    let mut r = SchemaRegistry::new();
    r.create_subject(SchemaSubject::new("events", "internal"));
    let err = r.register_consumer(consumer("horizon", 9, None)).unwrap_err();
    assert!(err.contains("does not exist"));
}

#[test]
fn consumed_override_cannot_be_replayed() {
    let mut r = registry();
    r.add_override(overriding("ovr-once")).unwrap();
    r.register_version_with_override(
        "events",
        broken(),
        SchemaFormat::JsonSchema,
        "a",
        Some("ovr-once"),
    )
    .unwrap();
    assert!(r
        .register_version_with_override(
            "events",
            broken(),
            SchemaFormat::JsonSchema,
            "a",
            Some("ovr-once")
        )
        .is_err());
}

#[test]
fn protobuf_removals_are_breaking_and_additions_are_not() {
    let old = json(r#""message Envelope { string id = 1; }""#);
    let added = json(r#""message Envelope { string id = 1; uint64 sequence = 2; }""#);
    let removed = json(r#""message Envelope { }""#);
    assert!(check_compatibility(&old, &added, CompatibilityMode::Full).compatible);
    assert!(!check_compatibility(&old, &removed, CompatibilityMode::Full).compatible);
}

#[test]
fn protobuf_statements_are_told_apart() {
    let found = protobuf_declarations("message Envelope { string id = 1; }");
    assert_eq!(found, ["Envelope", "Envelope: string id = 1"]);
    let source = "syntax = \"proto3\";\n// message Old {\nmessage Outer {\n  repeated  string ids = 1 \
                  [packed = true]; // the ids\n  message Inner {\n    int64 n =\n 2;\n  }\n  oneof \
                  kind {\n    bool a = 3;\n    bool b=4\n  }\n}\nenum Level\n{\n  LOW = 0;\n}\n";
    assert_eq!(
        protobuf_declarations(source),
        [
            "Outer",
            "Outer: repeated string ids = 1",
            "Outer.Inner",
            "Outer.Inner: int64 n = 2",
            "Outer: bool a = 3",
            "Outer: bool b = 4",
            "Level",
            "Level: LOW = 0",
        ]
    );
}

#[test]
fn changed_protobuf_field_is_breaking() {
    let old = Json::text("message A { string id = 1; }\nmessage B { string id = 1; }");
    let fits = |source: &str| {
        check_compatibility(&old, &Json::text(source), CompatibilityMode::Backward).compatible
    };
    assert!(fits("message B {\n string id = 1;\n}\nmessage A {\n string id = 1;\n}"));
    assert!(!fits("message A { int64 id = 1; }\nmessage B { string id = 1; }"));
    assert!(!fits("message A { string name = 1; }\nmessage B { string id = 1; }"));
    assert!(!fits("message A { string id = 2; }\nmessage B { string id = 1; }"));
    assert!(!fits("message A { }\nmessage B { string id = 1; }"));
    let result = check_compatibility(&old, &Json::text("message A { }"), CompatibilityMode::Forward);
    assert_eq!(
        result.issues,
        [
            "Protobuf declaration 'A: string id = 1' removed",
            "Protobuf declaration 'B' removed",
            "Protobuf declaration 'B: string id = 1' removed",
        ]
    );
}

#[test]
fn mappings_are_tested_before_they_are_carried_out() {
    let drop = rule("a.b.c", "", TransformationType::Drop);
    let fill = rule("", "a", TransformationType::Default(Json::number(1)));
    let nested = Json::object().with("a", Json::object().with("b", Json::number(1)));
    let flat = Json::object().with("a", Json::number(1));
    assert!(can_apply_mapping(&nested, &drop));
    assert!(can_apply_mapping(&Json::object(), &drop));
    assert!(!can_apply_mapping(&flat, &drop));
    assert!(can_apply_mapping(&flat, &fill));
    assert!(!can_apply_mapping(&Json::list(), &fill));
    assert!(can_remove_field(&flat, "a"));
    assert!(!can_hold_fields(&Json::number(1)));
    assert!(can_apply_mappings(&flat, &vec![rule("a", "", TransformationType::Drop), fill]));
    let both = vec![rule("", "a", TransformationType::Default(Json::number(1))), drop];
    assert!(!can_apply_mappings(&Json::object(), &both));
}

#[test]
fn every_shortest_way_is_tested() {
    let mut graph = graph();
    graph.supported_versions = ["v1", "v2a", "v2b", "v3"].map(String::from).to_vec();
    graph.current_storage_version = "v3".to_string();
    graph.migrations = StrMap::new();
    for (from, to) in [("v1", "v2a"), ("v1", "v2b"), ("v2a", "v3"), ("v2b", "v3")] {
        let rules = if from == "v2b" {
            vec![rule("a.b.c", "", TransformationType::Drop)]
        } else {
            Vec::new()
        };
        graph.migrations.insert(format!("{from}->{to}"), step(from, to, rules));
    }
    let nested = Json::object().with("a", Json::object().with("b", Json::number(1)));
    let flat = Json::object().with("a", Json::number(1));
    assert!(!can_apply_conversion(&graph, &flat, "v2b", "v3"));
    assert!(can_apply_conversion(&graph, &flat, "v2a", "v3"));
    let mut converter = SchemaVersionConverter::new(10);
    converter.register_migration_graph(graph).unwrap();
    let can = |to: &str, spec: &Json| {
        converter.can_convert_resource("StellarNode", "v1", to, spec)
    };
    assert!(can("v3", &nested));
    assert!(!can("v3", &flat));
    assert!(can("v2b", &flat));
    assert!(can("v9", &flat));
    assert!(converter.can_convert_resource("Other", "v1", "v3", &flat));
}

#[test]
fn deployment_requires_exact_consumer_pin() {
    let registry = internal_registry();
    validate_deployment_pin(&registry, "stellar.ledger.events", 1, None).unwrap();
    assert!(validate_deployment_pin(&registry, "stellar.ledger.events", 2, None).is_err());
    validate_consumer_deployment(
        &registry,
        "horizon",
        "stellar.ledger.events",
        1,
        "github.com/otowo/stellar-go/horizon@v1.0.0",
    )
    .unwrap();
    assert!(validate_consumer_deployment(
        &registry,
        "horizon",
        "stellar.ledger.events",
        1,
        "horizon:latest"
    )
    .is_err());
}

#[test]
fn unknown_subject_cannot_be_deployed() {
    let registry = internal_registry();
    assert!(validate_deployment_pin(&registry, "unknown", 1, None).is_err());
    assert!(validate_consumer_deployment(&registry, "nobody", "stellar.ledger.events", 1, "x@v1")
        .is_err());
    assert!(validate_consumer_deployment(&registry, "horizon", "stellar.ledger.events", 2, "x@v1")
        .is_err());
}

#[test]
fn versions_are_approved_rejected_and_deprecated() {
    let mut r = registry();
    assert_eq!(r.get_latest("events").unwrap().version, 1);
    assert_eq!(r.get_version("events", 1).unwrap().approved_by.as_deref(), Some("a"));
    assert!(r.deprecate_version("events", 1));
    assert!(r.get_version("events", 1).unwrap().deprecated);
    assert!(r.reject_version("events", 1));
    assert_eq!(r.get_version("events", 1).unwrap().approval_status, ApprovalStatus::Rejected);
    assert!(r.get_latest("events").is_none());
    assert!(!r.approve_version("events", 2, "a"));
    assert!(!r.set_compatibility("nothing", CompatibilityMode::Full));
    assert!(r.set_compatibility("events", CompatibilityMode::Full));
    assert_eq!(r.subject("events").unwrap().compatibility, CompatibilityMode::Full);
}

#[test]
fn used_subjects_are_counted() {
    let mut r = registry();
    r.create_subject(SchemaSubject::new("other", "internal"));
    r.record_usage("events");
    r.record_usage("events");
    r.record_usage("nothing");
    assert_eq!(r.usage_analytics(), vec![("events", 2), ("other", 0)]);
    assert_eq!(r.search("EVENT").len(), 1);
    assert!(r.docs("events").unwrap().contains("events"));
    assert!(r.docs("nothing").is_none());
    assert!(r.try_impact("nothing", &s()).is_err());
}

#[test]
fn plans_name_added_and_removed_fields() {
    let mut r = registry();
    let wider = json(
        r#"{"type":"object","required":["id"],"properties":{"id":{"type":"string"},"seq":{"type":"integer"}}}"#,
    );
    assert_eq!(r.register_version("events", wider, SchemaFormat::JsonSchema, "a"), Ok(2));
    let plan = r.migration_plan("events", 1, 2).unwrap();
    assert_eq!(plan.steps.len(), 1);
    assert_eq!(plan.steps[0].field, "seq");
    assert!(matches!(plan.steps[0].action, MigrationAction::AddField { .. }));
    let back = r.migration_plan("events", 2, 1).unwrap();
    assert!(matches!(back.steps[0].action, MigrationAction::RemoveField));
    assert!(r.migration_plan("events", 1, 3).is_none());
}

#[test]
fn overrides_need_a_reason_and_an_approver() {
    let mut r = registry();
    let mut o = overriding("ovr");
    o.reason = String::new();
    assert!(r.add_override(o).is_err());
    assert!(r.add_override(overriding("ovr")).is_ok());
    assert!(r.has_override("ovr", "events"));
    assert!(!r.has_override("ovr", "other"));
}

#[test]
fn rejects_floating_client() {
    let mut s = InternalApiSchemaSpec {
        subject: "events".into(),
        schema_version: 1,
        registry_path: "registry.json".into(),
        consumers: vec![ConsumerDeploymentPolicy {
            name: "h".into(),
            client_reference: "h:latest".into(),
        }],
        enforce_compatibility: true,
    };
    assert!(s.validate().is_err());
    s.consumers[0].client_reference = "h@v1".into();
    assert!(s.validate().is_ok());
}

#[test]
fn test_create_converter() {
    let converter = SchemaVersionConverter::new(100);
    assert_eq!(converter.graphs.len(), 0);
}

#[test]
fn test_conversion_audit_ring_buffer() {
    let mut buffer = ConversionAuditRingBuffer::new(2);

    let event1 = ConversionAuditEvent {
        crd_kind: "StellarNode".to_string(),
        resource_name: "node1".to_string(),
        namespace: "default".to_string(),
        from_version: "v1alpha1".to_string(),
        to_version: "v1beta1".to_string(),
        success: true,
        error_message: None,
        timestamp: Timestamp::now(),
        spec_hash: "hash1".to_string(),
    };

    buffer.record(event1.clone());
    assert_eq!(buffer.get_events().len(), 1);

    buffer.record(event1.clone());
    buffer.record(event1.clone());
    assert_eq!(buffer.get_events().len(), 2);
    assert_eq!(buffer.get_events_for_kind("StellarNode").len(), 2);
    assert_eq!(buffer.get_events_for_kind("Other").len(), 0);
}

#[test]
fn test_validate_migration_graph() {
    let invalid_graph = SchemaMigrationGraph {
        crd_kind: "StellarNode".to_string(),
        migrations: StrMap::new(),
        current_storage_version: "v1beta1".to_string(),
        supported_versions: vec!["v1alpha1".to_string()],
    };

    assert!(validate_migration_graph(&invalid_graph).is_err());
}

fn step(from: &str, to: &str, rules: Vec<FieldMapping>) -> SchemaMigration {
    SchemaMigration {
        from_version: from.to_string(),
        to_version: to.to_string(),
        conversion_rules: rules,
        auto_convertible: true,
    }
}

fn rule(source: &str, target: &str, transformation: TransformationType) -> FieldMapping {
    FieldMapping {
        source_field: source.to_string(),
        target_field: target.to_string(),
        transformation,
    }
}

fn graph() -> SchemaMigrationGraph {
    let mut migrations = StrMap::new();
    migrations.insert(
        "v1alpha1->v1beta1".to_string(),
        step(
            "v1alpha1",
            "v1beta1",
            vec![
                rule("image", "container.image", TransformationType::Identity),
                rule("image", "", TransformationType::Drop),
                rule("", "replicas", TransformationType::Default(Json::number(1))),
            ],
        ),
    );
    migrations.insert("v1beta1->v1alpha1".to_string(), step("v1beta1", "v1alpha1", Vec::new()));
    SchemaMigrationGraph {
        crd_kind: "StellarNode".to_string(),
        migrations,
        current_storage_version: "v1beta1".to_string(),
        supported_versions: vec!["v1alpha1".to_string(), "v1beta1".to_string()],
    }
}

#[test]
fn conversions_follow_the_rules_of_their_step() {
    let graph_error = validate_migration_graph(&graph());
    let mut converter = SchemaVersionConverter::new(10);
    if let Err(e) = graph_error {
        panic!("{e:?}");
    }
    converter.register_migration_graph(graph()).unwrap();
    let spec = Json::object().with("image", Json::text("core:1"));
    let converted =
        converter.convert("StellarNode", "n", "default", "v1alpha1", "v1beta1", spec).unwrap();
    assert_eq!(converted.to_text(), r#"{"container":{"image":"core:1"},"replicas":1}"#);
    let events = converter.get_audit_events();
    assert_eq!(events.len(), 1);
    assert!(events[0].success);
    assert_eq!(events[0].to_version, "v1beta1");
    assert!(converter
        .convert("Other", "n", "default", "v1alpha1", "v1beta1", Json::object())
        .is_err());
}

#[test]
fn same_version_needs_no_conversion() {
    let mut converter = SchemaVersionConverter::new(10);
    converter.register_migration_graph(graph()).unwrap();
    let spec = Json::object().with("a", Json::number(1));
    let kept = converter
        .convert("StellarNode", "n", "default", "v1beta1", "v1beta1", spec)
        .unwrap();
    assert_eq!(kept.to_text(), r#"{"a":1}"#);
}

#[test]
fn unreachable_versions_have_no_path() {
    assert_eq!(
        find_conversion_path(&graph(), "v1alpha1", "v1beta1").unwrap(),
        vec!["v1alpha1".to_string(), "v1beta1".to_string()]
    );
    assert!(matches!(
        find_conversion_path(&graph(), "v1alpha1", "v2"),
        Err(Error::ConfigError(_) | Error::ValidationError(_) | Error::ValidationStep { .. })
    ));
}

#[test]
fn fields_are_read_where_they_were_written() {
    let spec = set_field_value(Json::object(), "a.b.c", Json::number(7));
    assert_eq!(spec.to_text(), r#"{"a":{"b":{"c":7}}}"#);
    assert!(field_exists(&spec, "a.b"));
    assert_eq!(get_field_value(&spec, "a.b.c").unwrap().to_text(), "7");
    assert!(get_field_value(&spec, "a.x").is_none());
    let spec = remove_field_value(spec, "a.b.c");
    assert!(!field_exists(&spec, "a.b.c"));
}

#[test]
fn refused_registration_changes_nothing() {
    let mut r = registry();
    r.add_override(RegistryOverride { consumed: true, ..overriding("used") }).ok();
    let versions = r.subject("events").unwrap().versions.len();
    let audit = r.audit().len();
    for id in [None, Some("missing")] {
        let result = r.register_version_with_override(
            "events",
            broken(),
            SchemaFormat::JsonSchema,
            "a",
            id,
        );
        assert!(result.is_err());
        assert_eq!(r.subject("events").unwrap().versions.len(), versions);
        assert_eq!(r.audit().len(), audit);
        assert_eq!(r.get_latest("events").unwrap().version, 1);
    }
    assert!(r.register_version("nowhere", s(), SchemaFormat::JsonSchema, "a").is_err());
    assert!(r.subject("nowhere").is_none());
}

#[test]
fn newest_conversion_is_on_record() {
    let event = |name: &str| ConversionAuditEvent {
        crd_kind: "StellarNode".to_string(),
        resource_name: name.to_string(),
        namespace: "default".to_string(),
        from_version: "v1alpha1".to_string(),
        to_version: "v1beta1".to_string(),
        success: true,
        error_message: None,
        timestamp: Timestamp::now(),
        spec_hash: "hash".to_string(),
    };
    let mut buffer = ConversionAuditRingBuffer::new(2);
    for name in ["a", "b", "c"] {
        buffer.record(event(name));
        assert_eq!(buffer.get_events().last().unwrap().resource_name, name);
    }
    assert_eq!(buffer.get_events()[0].resource_name, "b");
    let mut none = ConversionAuditRingBuffer::new(0);
    none.record(event("a"));
    assert_eq!(none.get_events().len(), 0);
}

#[test]
fn floating_references_are_told() {
    for client in ["latest", "main", "h:latest", "h@latest", "o/h/latest", "h:main", "h@main"] {
        assert!(floats(client), "{client}");
    }
    for client in ["h@v1", "latest-h@v1", "o/main/h:1.0", "h"] {
        assert!(!floats(client), "{client}");
    }
}

#[test]
fn consumers_are_asked_before_any_approval() {
    let mut r = SchemaRegistry::new();
    r.create_subject(SchemaSubject::new("events", "internal"));
    assert_eq!(r.register_version("events", s(), SchemaFormat::JsonSchema, "a"), Ok(1));
    r.register_consumer(consumer("horizon", 1, Some("horizon-v1"))).unwrap();
    assert!(r.register_version("events", broken(), SchemaFormat::JsonSchema, "a").is_err());
    r.add_override(overriding("ovr-1")).unwrap();
    assert_eq!(
        r.register_version_with_override(
            "events",
            broken(),
            SchemaFormat::JsonSchema,
            "a",
            Some("ovr-1")
        ),
        Ok(2)
    );
}

#[test]
fn shortest_route_is_taken() {
    let mut graph = graph();
    for (from, to) in [("v1", "v2"), ("v2", "v3"), ("v3", "v4"), ("v1", "v3")] {
        graph.migrations.insert(format!("{from}->{to}"), step(from, to, Vec::new()));
    }
    let path = |to: &str| find_conversion_path(&graph, "v1", to).unwrap();
    assert_eq!(path("v3"), ["v1", "v3"]);
    assert_eq!(path("v4"), ["v1", "v3", "v4"]);
}
