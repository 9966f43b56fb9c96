use pera::canonical::catalog::{CanonicalBindings, SkillCatalog};
use pera::canonical::python::render_python_stubs;
use pera::canonical::registry::{CatalogSkill, SkillMetadata};
use pera::canonical::ir::{
    CanonicalFunctionResult, CanonicalPrimitiveType, CanonicalTypeDefKind, CanonicalTypeRef,
    CanonicalWorld,
};
use pera::canonical::adapters::ModelInvocation;
use pera::canonical::wasm::WasmValue;
use pera::canonical::wit::{
    canonical_world_from_resolve, import_checked_world, resolve_is_wf, WitCase, WitEnumCase, WitField, WitFunction, WitInterface,
    WitPackage, WitResolve, WitType, WitTypeDef, WitTypeDefKind, WitWorld, WitWorldItem,
    WitWorldKey,
};
use pera::domain::action::CanonicalInvocation;
use pera::domain::ids::ActionName;
use pera::domain::value::{CanonicalValue, Value};

fn named(name: &str, docs: Option<&str>, kind: WitTypeDefKind) -> WitTypeDef {
    WitTypeDef {
        name: Some(name.to_owned()),
        docs: docs.map(|d| d.to_owned()),
        kind,
    }
}

fn anonymous(kind: WitTypeDefKind) -> WitTypeDef {
    WitTypeDef { name: None, docs: None, kind }
}

fn enum_of(cases: &[&str]) -> WitTypeDefKind {
    WitTypeDefKind::Enum(
        cases
            .iter()
            .map(|c| WitEnumCase { name: (*c).to_owned(), docs: None })
            .collect(),
    )
}

fn field(name: &str, ty: WitType) -> WitField {
    WitField { name: name.to_owned(), docs: None, ty }
}

fn function(name: &str, docs: Option<&str>, params: &[(&str, WitType)], result: Option<WitType>) -> WitFunction {
    WitFunction {
        name: name.to_owned(),
        docs: docs.map(|d| d.to_owned()),
        params: params.iter().map(|(n, t)| ((*n).to_owned(), *t)).collect(),
        result,
    }
}

const OPTIONAL_STRING: WitType = WitType::Id(2);
const STRING_LIST: WitType = WitType::Id(3);
const MISSION: WitType = WitType::Id(4);

/// The resolved documents of the secret-service skill: a `missions`
/// interface that the world exports, and two interfaces it imports.
fn secret_service_resolve() -> WitResolve {
    let types = vec![
        named("difficulty", None, enum_of(&["low", "medium", "high"])),
        named("mission-status", None, enum_of(&["planned", "active", "resolved"])),
        anonymous(WitTypeDefKind::Option(WitType::String)),
        anonymous(WitTypeDefKind::List(WitType::String)),
        named(
            "mission",
            Some("Mission plan and execution state."),
            WitTypeDefKind::Record(vec![
                field("id", WitType::String),
                field("objective", WitType::String),
                field("difficulty", WitType::Id(0)),
                field("region", WitType::String),
                field("required-skills", STRING_LIST),
                field("status", WitType::Id(1)),
                field("assigned-agent-id", OPTIONAL_STRING),
                field("result-notes", OPTIONAL_STRING),
            ]),
        ),
        named("mission-outcome", None, enum_of(&["success", "failure"])),
        named(
            "resolve-mission-output",
            None,
            WitTypeDefKind::Record(vec![
                field("mission", MISSION),
                field("released-gadgets", STRING_LIST),
            ]),
        ),
    ];
    let missions = WitInterface {
        docs: Some("Mission planning.".to_owned()),
        types: vec![1, 0, 4, 5, 6],
        functions: vec![
            function(
                "resolve-mission",
                Some("Resolve a mission, record the outcome, and release any assigned gadgets."),
                &[
                    ("mission-id", WitType::String),
                    ("outcome", WitType::Id(5)),
                    ("notes", OPTIONAL_STRING),
                ],
                Some(WitType::Id(6)),
            ),
            function(
                "create-mission",
                None,
                &[
                    ("objective", WitType::String),
                    ("difficulty", WitType::Id(0)),
                    ("region", WitType::String),
                    ("required-skills", STRING_LIST),
                ],
                Some(MISSION),
            ),
        ],
    };
    let gadgets = WitInterface {
        docs: None,
        types: Vec::new(),
        functions: vec![function("release-gadgets", None, &[("mission-id", WitType::String)], None)],
    };
    let agents = WitInterface {
        docs: None,
        types: Vec::new(),
        functions: vec![function("find-agent", None, &[("region", WitType::String)], Some(OPTIONAL_STRING))],
    };
    WitResolve {
        worlds: vec![WitWorld {
            name: "secret-service-default".to_owned(),
            docs: None,
            package: Some(0),
            imports: vec![
                (WitWorldKey::Name("gadgets".to_owned()), WitWorldItem::Interface(1)),
                (WitWorldKey::Interface(2), WitWorldItem::Interface(2)),
            ],
            exports: vec![(WitWorldKey::Name("missions".to_owned()), WitWorldItem::Interface(0))],
        }],
        interfaces: vec![missions, gadgets, agents],
        types,
        packages: vec![WitPackage {
            namespace: "pera".to_owned(),
            name: "secret-service".to_owned(),
            version: None,
        }],
    }
}

/// The resolved documents of the weather-brief skill: one exported
/// interface with a forecast function.
fn weather_brief_resolve() -> WitResolve {
    WitResolve {
        worlds: vec![WitWorld {
            name: "weather-brief-default".to_owned(),
            docs: None,
            package: Some(0),
            imports: Vec::new(),
            exports: vec![(WitWorldKey::Name("forecasts".to_owned()), WitWorldItem::Interface(0))],
        }],
        interfaces: vec![WitInterface {
            docs: None,
            types: Vec::new(),
            functions: vec![function("get-forecast", None, &[("city", WitType::String)], Some(WitType::String))],
        }],
        types: Vec::new(),
        packages: vec![WitPackage {
            namespace: "pera".to_owned(),
            name: "weather-brief".to_owned(),
            version: None,
        }],
    }
}

fn secret_service_world() -> CanonicalWorld {
    canonical_world_from_resolve(&secret_service_resolve(), 0, "secret-service-default").unwrap()
}

fn bindings() -> CanonicalBindings {
    CanonicalBindings::from_world(secret_service_world()).unwrap()
}

#[test]
fn imports_secret_service_world_into_canonical_ir() {
    let world = secret_service_world();

    assert_eq!(world.name, "secret-service-default");
    assert_eq!(world.imports.len(), 2);
    assert_eq!(world.exports.len(), 1);

    let exports = &world.exports[0];
    assert!(exports.functions.iter().any(|function| function.name == "resolve-mission"));
    assert!(exports.types.iter().any(|ty| ty.name == "mission"));

    let mission = exports.types.iter().find(|ty| ty.name == "mission").unwrap();
    match &mission.kind {
        CanonicalTypeDefKind::Record(record) => {
            assert!(record.fields.iter().any(|field| field.name == "assigned-agent-id"));
        }
        _ => panic!("mission should import as a canonical record"),
    }

    let resolve_mission = exports
        .functions
        .iter()
        .find(|function| function.name == "resolve-mission")
        .unwrap();
    match &resolve_mission.result {
        CanonicalFunctionResult::Scalar(_) => {}
        _ => panic!("resolve-mission should have a scalar result"),
    }
}

#[test]
fn model_adapter_lowers_python_names_into_canonical_invocation() {
    let bindings = bindings();
    let adapter = bindings.model_adapter();

    let invocation = ModelInvocation {
        function_name: "resolve_mission".to_owned(),
        arguments: vec![
            ("mission_id".to_owned(), Value::String("m-1".to_owned())),
            ("notes".to_owned(), Value::Null),
            ("outcome".to_owned(), Value::String("success".to_owned())),
        ],
    };

    let canonical = adapter.model_invocation_to_canonical_invocation(&invocation).unwrap();
    assert_eq!(canonical.action_name.0.as_str(), "resolve-mission");
    let get = |name: &str| canonical.arguments.iter().find(|(k, _)| k == name).map(|(_, v)| v);
    assert_eq!(get("mission-id"), Some(&CanonicalValue::String("m-1".to_owned())));
    assert_eq!(get("outcome"), Some(&CanonicalValue::EnumCase("success".to_owned())));
}

#[test]
fn wasm_adapter_lowers_canonical_invocation_into_ordered_arguments() {
    let bindings = bindings();
    let model = bindings.model_adapter();
    let wasm = bindings.wasmtime_adapter();

    let invocation = ModelInvocation {
        function_name: "resolve_mission".to_owned(),
        arguments: vec![
            ("mission_id".to_owned(), Value::String("m-1".to_owned())),
            ("notes".to_owned(), Value::String("extract failed".to_owned())),
            ("outcome".to_owned(), Value::String("failure".to_owned())),
        ],
    };

    let canonical = model.model_invocation_to_canonical_invocation(&invocation).unwrap();
    let lowered = wasm
        .canonical_invocation_to_wasmtime_invocation("secret-service", &canonical)
        .unwrap();
    assert_eq!(lowered.locator.skill.skill_name, "secret-service");
    assert_eq!(lowered.export_name, "resolve-mission");
    assert_eq!(lowered.arguments.len(), 3);
    assert_eq!(lowered.arguments[0], WasmValue::String("m-1".to_owned()));
    assert_eq!(lowered.arguments[1], WasmValue::Enum("failure".to_owned()));
    assert_eq!(
        lowered.arguments[2],
        WasmValue::Option(Some(Box::new(WasmValue::String("extract failed".to_owned()))))
    );
}

#[test]
fn wasm_adapter_lowers_action_request_directly() {
    let bindings = bindings();
    let wasm = bindings.wasmtime_adapter();

    let lowered = wasm
        .canonical_invocation_to_wasmtime_invocation(
            "secret-service",
            &CanonicalInvocation {
                action_name: ActionName("resolve-mission".to_owned()),
                arguments: vec![
                    ("mission-id".to_owned(), CanonicalValue::String("m-1".to_owned())),
                    ("notes".to_owned(), CanonicalValue::String("extract failed".to_owned())),
                    ("outcome".to_owned(), CanonicalValue::EnumCase("failure".to_owned())),
                ],
            },
        )
        .unwrap();

    assert_eq!(lowered.locator.skill.skill_name, "secret-service");
    assert_eq!(lowered.export_name, "resolve-mission");
    assert_eq!(lowered.arguments.len(), 3);
    assert_eq!(lowered.arguments[0], WasmValue::String("m-1".to_owned()));
    assert_eq!(lowered.arguments[1], WasmValue::Enum("failure".to_owned()));
    assert_eq!(
        lowered.arguments[2],
        WasmValue::Option(Some(Box::new(WasmValue::String("extract failed".to_owned()))))
    );
}

#[test]
fn model_adapter_lifts_canonical_record_result_back_to_python_surface() {
    let bindings = bindings();
    let adapter = bindings.model_adapter();

    let value = CanonicalValue::Record(vec![
        ("assigned-agent-id".to_owned(), CanonicalValue::Null),
        ("difficulty".to_owned(), CanonicalValue::EnumCase("high".to_owned())),
        ("id".to_owned(), CanonicalValue::String("mission-7".to_owned())),
        ("objective".to_owned(), CanonicalValue::String("Observe harbor".to_owned())),
        ("region".to_owned(), CanonicalValue::String("mediterranean".to_owned())),
        (
            "required-skills".to_owned(),
            CanonicalValue::List(vec![CanonicalValue::String("surveillance".to_owned())]),
        ),
        ("result-notes".to_owned(), CanonicalValue::String("clean exit".to_owned())),
        ("status".to_owned(), CanonicalValue::EnumCase("resolved".to_owned())),
    ]);

    let lifted = adapter
        .canonical_result_to_model_value("secret-service.create-mission", &value)
        .unwrap();
    let fields = match lifted {
        Value::Dict(fields) => fields,
        Value::Record { fields, .. } => fields,
        _ => panic!("expected record-shaped model value"),
    };
    let get = |name: &str| fields.iter().find(|(k, _)| k == name).map(|(_, v)| v.clone());
    assert_eq!(get("objective"), Some(Value::String("Observe harbor".to_owned())));
    assert_eq!(get("difficulty"), Some(Value::String("high".to_owned())));
    assert_eq!(get("assigned_agent_id"), Some(Value::Null));
}

#[test]
fn renders_secret_service_python_stubs() {
    let world = secret_service_world();

    let rendered = render_python_stubs(&world);

    assert!(rendered.contains("class MissionStatus(Enum):"));
    assert!(rendered.contains("class Mission:"));
    assert!(rendered.contains(r#"    """Mission plan and execution state."""#));
    assert!(rendered.contains("assigned_agent_id: Optional[str]"));
    assert!(rendered.contains(
        "def resolve_mission(mission_id: str, outcome: MissionOutcome, notes: Optional[str]) -> ResolveMissionOutput:"
    ));
    assert!(rendered.contains(
        r#"    """Resolve a mission, record the outcome, and release any assigned gadgets."""#
    ));
}

#[test]
fn skill_catalog_resolves_both_unique_and_namespaced_model_names() {
    let secret_world = secret_service_world();
    let weather_world =
        canonical_world_from_resolve(&weather_brief_resolve(), 0, "weather-brief-default").unwrap();

    let catalog = SkillCatalog::from_skills(vec![
        CatalogSkill {
            metadata: SkillMetadata::new("secret-service".to_owned(), "secret-service-default".to_owned()),
            world: secret_world,
        },
        CatalogSkill {
            metadata: SkillMetadata::new("weather-brief".to_owned(), "weather-brief-default".to_owned()),
            world: weather_world,
        },
    ])
    .unwrap();

    let registry = catalog.action_registry();
    assert_eq!(
        registry
            .resolve_model_action("resolve_mission")
            .map(|action| action.canonical_action_id.as_str()),
        Some("secret-service.resolve-mission")
    );
    assert_eq!(
        registry
            .resolve_model_action("weather_brief.get_forecast")
            .map(|action| action.canonical_action_id.as_str()),
        Some("weather-brief.get-forecast")
    );
    assert_eq!(
        registry
            .resolve_canonical_action("secret-service.resolve-mission")
            .map(|action| action.canonical_action_id.as_str()),
        Some("secret-service.resolve-mission")
    );
}

#[test]
fn interface_types_and_functions_come_in_name_order() {
    let world = secret_service_world();
    let exports = &world.exports[0];
    let type_names: Vec<&str> = exports.types.iter().map(|t| t.name.as_str()).collect();
    assert_eq!(
        type_names,
        vec!["difficulty", "mission", "mission-outcome", "mission-status", "resolve-mission-output"]
    );
    let function_names: Vec<&str> = exports.functions.iter().map(|f| f.name.as_str()).collect();
    assert_eq!(function_names, vec!["create-mission", "resolve-mission"]);
    assert_eq!(exports.name, "missions");
    assert_eq!(exports.docs.as_deref(), Some("Mission planning."));
}

#[test]
fn world_package_and_imports_keep_their_names() {
    let world = secret_service_world();
    let package = world.package.as_ref().unwrap();
    assert_eq!(package.namespace, "pera");
    assert_eq!(package.name, "secret-service");
    assert_eq!(package.version, None);
    assert_eq!(world.imports[0].name, "gadgets");
    assert_eq!(world.imports[1].name, "interface-2");
    assert_eq!(world.imports[1].functions[0].name, "find-agent");
    match &world.imports[1].functions[0].result {
        CanonicalFunctionResult::Scalar(CanonicalTypeRef::Option(inner)) => {
            assert_eq!(**inner, CanonicalTypeRef::Primitive(CanonicalPrimitiveType::String));
        }
        _ => panic!("find-agent should return an optional string"),
    }
    assert!(matches!(world.imports[0].functions[0].result, CanonicalFunctionResult::Nothing));
}

#[test]
fn anonymous_types_are_written_inline_and_named_ones_by_name() {
    let world = secret_service_world();
    let mission = world.exports[0].types.iter().find(|t| t.name == "mission").unwrap();
    assert_eq!(mission.docs.as_deref(), Some("Mission plan and execution state."));
    let fields = match &mission.kind {
        CanonicalTypeDefKind::Record(record) => &record.fields,
        _ => panic!("mission should be a record"),
    };
    assert_eq!(fields[2].ty, CanonicalTypeRef::Named("difficulty".to_owned()));
    assert_eq!(
        fields[4].ty,
        CanonicalTypeRef::List(Box::new(CanonicalTypeRef::Primitive(CanonicalPrimitiveType::String)))
    );
}

#[test]
fn missing_world_is_reported_by_name() {
    let err = canonical_world_from_resolve(&secret_service_resolve(), 0, "other").unwrap_err();
    assert_eq!(err.message(), "world 'other' was not found");
    let err = canonical_world_from_resolve(&secret_service_resolve(), 7, "secret-service-default")
        .unwrap_err();
    assert_eq!(err.message(), "world 'secret-service-default' was not found");
}

fn single_export_resolve(types: Vec<WitTypeDef>, iface_types: Vec<usize>, item: WitWorldItem) -> WitResolve {
    WitResolve {
        worlds: vec![WitWorld {
            name: "w".to_owned(),
            docs: Some("A world.".to_owned()),
            package: Some(0),
            imports: Vec::new(),
            exports: vec![(WitWorldKey::Name("e".to_owned()), item)],
        }],
        interfaces: vec![WitInterface { docs: None, types: iface_types, functions: Vec::new() }],
        types,
        packages: vec![WitPackage { namespace: "t".to_owned(), name: "p".to_owned(), version: Some("1.0.0".to_owned()) }],
    }
}

#[test]
fn unsupported_and_anonymous_interface_types_fail() {
    let resolve = single_export_resolve(
        vec![named("handle", None, WitTypeDefKind::Unsupported)],
        vec![0],
        WitWorldItem::Interface(0),
    );
    let err = canonical_world_from_resolve(&resolve, 0, "w");
    assert!(err.is_err());

    let resolve = single_export_resolve(Vec::new(), Vec::new(), WitWorldItem::Interface(0));
    let world = canonical_world_from_resolve(&resolve, 0, "w").unwrap();
    assert_eq!(world.docs.as_deref(), Some("A world."));
    assert_eq!(world.package.as_ref().unwrap().version.as_deref(), Some("1.0.0"));

    let resolve = single_export_resolve(
        vec![anonymous(WitTypeDefKind::List(WitType::U8))],
        vec![0],
        WitWorldItem::Interface(0),
    );
    assert_eq!(
        canonical_world_from_resolve(&resolve, 0, "w").unwrap_err().message(),
        "anonymous interface type cannot be canonicalized"
    );

    let resolve = single_export_resolve(
        vec![named("handle", None, WitTypeDefKind::Unsupported)],
        vec![0],
        WitWorldItem::Interface(0),
    );
    assert_eq!(
        canonical_world_from_resolve(&resolve, 0, "w").unwrap_err().message(),
        "unsupported WIT type 'handle'"
    );
}

#[test]
fn world_level_types_and_error_contexts_fail() {
    let resolve = single_export_resolve(Vec::new(), Vec::new(), WitWorldItem::Type);
    assert_eq!(
        canonical_world_from_resolve(&resolve, 0, "w").unwrap_err().message(),
        "top-level world types are not yet supported in canonical import"
    );
    let resolve = single_export_resolve(
        Vec::new(),
        Vec::new(),
        WitWorldItem::Function(function("f", None, &[("x", WitType::ErrorContext)], None)),
    );
    assert_eq!(
        canonical_world_from_resolve(&resolve, 0, "w").unwrap_err().message(),
        "resource and handle types are not yet supported in canonical import"
    );
    let resolve = WitResolve {
        types: vec![anonymous(WitTypeDefKind::Enum(Vec::new()))],
        ..single_export_resolve(
            Vec::new(),
            Vec::new(),
            WitWorldItem::Function(function("f", None, &[("x", WitType::Id(0))], None)),
        )
    };
    assert_eq!(
        canonical_world_from_resolve(&resolve, 0, "w").unwrap_err().message(),
        "anonymous non-inline type is not supported in canonical import"
    );
}

#[test]
fn a_world_function_becomes_an_interface_of_its_own() {
    let resolve = single_export_resolve(
        Vec::new(),
        Vec::new(),
        WitWorldItem::Function(function(
            "ping",
            Some("Pings."),
            &[("n", WitType::U32), ("ok", WitType::Bool)],
            Some(WitType::F64),
        )),
    );
    let world = canonical_world_from_resolve(&resolve, 0, "w").unwrap();
    let iface = &world.exports[0];
    assert_eq!(iface.name, "e");
    assert_eq!(iface.docs.as_deref(), Some("Pings."));
    assert!(iface.types.is_empty());
    assert_eq!(iface.functions.len(), 1);
    assert_eq!(iface.functions[0].params[0].ty, CanonicalTypeRef::Primitive(CanonicalPrimitiveType::U32));
    assert_eq!(iface.functions[0].params[1].name, "ok");
    match &iface.functions[0].result {
        CanonicalFunctionResult::Scalar(t) => {
            assert_eq!(*t, CanonicalTypeRef::Primitive(CanonicalPrimitiveType::Float64))
        }
        _ => panic!("ping returns a float"),
    }
}

#[test]
fn aliases_take_the_shape_and_docs_of_what_they_name() {
    let types = vec![
        named(
            "point",
            Some("A point."),
            WitTypeDefKind::Variant(vec![
                WitCase { name: "origin".to_owned(), docs: None, ty: None },
                WitCase { name: "at".to_owned(), docs: Some("Somewhere.".to_owned()), ty: Some(WitType::S64) },
            ]),
        ),
        named("spot", None, WitTypeDefKind::Type(WitType::Id(0))),
        named("pair", None, WitTypeDefKind::Tuple(vec![WitType::Char, WitType::Id(1)])),
        named("outcome", None, WitTypeDefKind::Result(Some(WitType::String), None)),
        named("perms", None, WitTypeDefKind::Flags(vec!["read".to_owned(), "write".to_owned()])),
    ];
    let resolve = single_export_resolve(types, vec![1, 2, 3, 4], WitWorldItem::Interface(0));
    let world = canonical_world_from_resolve(&resolve, 0, "w").unwrap();
    let defs = &world.exports[0].types;
    let names: Vec<&str> = defs.iter().map(|t| t.name.as_str()).collect();
    assert_eq!(names, vec!["outcome", "pair", "perms", "spot"]);
    assert_eq!(defs[3].docs.as_deref(), Some("A point."));
    match &defs[3].kind {
        CanonicalTypeDefKind::Variant(cases) => {
            assert_eq!(cases.len(), 2);
            assert_eq!(cases[1].ty, Some(CanonicalTypeRef::Primitive(CanonicalPrimitiveType::S64)));
        }
        _ => panic!("spot should take the variant shape"),
    }
    assert_eq!(
        defs[1].kind,
        CanonicalTypeDefKind::Alias(CanonicalTypeRef::Tuple(vec![
            CanonicalTypeRef::Primitive(CanonicalPrimitiveType::Char),
            CanonicalTypeRef::Named("spot".to_owned()),
        ]))
    );
    assert_eq!(
        defs[0].kind,
        CanonicalTypeDefKind::Alias(CanonicalTypeRef::Result {
            ok: Some(Box::new(CanonicalTypeRef::Primitive(CanonicalPrimitiveType::String))),
            err: None,
        })
    );
    assert_eq!(
        defs[2].kind,
        CanonicalTypeDefKind::Flags(vec!["read".to_owned(), "write".to_owned()])
    );
}

#[test]
fn malformed_resolves_are_refused_before_import() {
    assert!(resolve_is_wf(&secret_service_resolve()));
    assert!(resolve_is_wf(&weather_brief_resolve()));

    let mut ahead = weather_brief_resolve();
    ahead.types = vec![anonymous(WitTypeDefKind::List(WitType::Id(0)))];
    assert!(!resolve_is_wf(&ahead));

    let mut out_of_range = weather_brief_resolve();
    out_of_range.worlds[0].exports = vec![(WitWorldKey::Name("x".to_owned()), WitWorldItem::Interface(7))];
    assert!(!resolve_is_wf(&out_of_range));
    let err = import_checked_world(&out_of_range, 0, "weather-brief-default").unwrap_err();
    assert_eq!(
        err.message(),
        "resolved WIT documents are malformed: an id is out of range or a type refers ahead"
    );

    let world = import_checked_world(&weather_brief_resolve(), 0, "weather-brief-default").unwrap();
    assert_eq!(world.name, "weather-brief-default");
}
