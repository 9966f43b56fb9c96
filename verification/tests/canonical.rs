use pera::canonical::catalog::SkillCatalog;
use pera::canonical::ir::{
    CanonicalField, CanonicalFunction, CanonicalFunctionResult, CanonicalInterface,
    CanonicalPackageRef, CanonicalParam, CanonicalPrimitiveType, CanonicalRecord,
    CanonicalTypeDef, CanonicalTypeDefKind, CanonicalTypeRef, CanonicalWorld, CanonicalEnumCase,
};
use pera::canonical::naming::{python_function_name, python_module_name, python_type_name};
use pera::canonical::python::{
    canonical_python_bindings, python_annotation, render_python_stubs, render_python_value,
};
use pera::canonical::registry::{CatalogSkill, SkillMetadata};
use pera::domain::value::Value;

fn test_world(skill_name: &str, world_name: &str, action_name: &str) -> CanonicalWorld {
    CanonicalWorld {
        package: Some(CanonicalPackageRef {
            namespace: "tests".to_owned(),
            name: skill_name.to_owned(),
            version: None,
        }),
        name: world_name.to_owned(),
        docs: None,
        imports: Vec::new(),
        exports: vec![CanonicalInterface {
            name: format!("{skill_name}-exports"),
            docs: None,
            functions: vec![CanonicalFunction {
                name: action_name.to_owned(),
                docs: None,
                params: vec![CanonicalParam {
                    name: "value".to_owned(),
                    ty: CanonicalTypeRef::Primitive(CanonicalPrimitiveType::String),
                }],
                result: CanonicalFunctionResult::Scalar(CanonicalTypeRef::Primitive(
                    CanonicalPrimitiveType::String,
                )),
            }],
            types: Vec::new(),
        }],
    }
}

#[test]
fn conflicting_unqualified_model_names_require_namespace() {
    let world_a = test_world("alpha", "alpha-default", "ping");
    let world_b = test_world("beta", "beta-default", "ping");

    let catalog = SkillCatalog::from_skills(vec![
        CatalogSkill {
            metadata: SkillMetadata::new("alpha".to_owned(), "alpha-default".to_owned()),
            world: world_a,
        },
        CatalogSkill {
            metadata: SkillMetadata::new("beta".to_owned(), "beta-default".to_owned()),
            world: world_b,
        },
    ])
    .unwrap();

    let registry = catalog.action_registry();
    assert!(registry.resolve_model_action("ping").is_none());
    assert_eq!(
        registry
            .resolve_model_action("alpha.ping")
            .map(|action| action.canonical_action_id.as_str()),
        Some("alpha.ping")
    );
    assert_eq!(
        registry
            .resolve_model_action("beta.ping")
            .map(|action| action.canonical_action_id.as_str()),
        Some("beta.ping")
    );
}

#[test]
fn unique_model_names_resolve_without_namespace() {
    let catalog = SkillCatalog::from_skills(vec![
        CatalogSkill {
            metadata: SkillMetadata::new("alpha".to_owned(), "alpha-default".to_owned()),
            world: test_world("alpha", "alpha-default", "ping"),
        },
        CatalogSkill {
            metadata: SkillMetadata::new("beta".to_owned(), "beta-default".to_owned()),
            world: test_world("beta", "beta-default", "pong"),
        },
    ])
    .unwrap();
    let registry = catalog.action_registry();
    assert_eq!(
        registry
            .resolve_model_action("pong")
            .map(|action| action.canonical_action_id.as_str()),
        Some("beta.pong")
    );
    assert!(registry.resolve_model_action("gamma.pong").is_none());
}

#[test]
fn render_python_value_preserves_tuple_syntax() {
    let rendered = render_python_value(&Value::Tuple(vec![
        Value::List(vec![Value::String("meeting".to_owned())]),
        Value::List(vec![]),
        Value::Record {
            name: "trip-policy".to_owned(),
            fields: vec![("shared_room_allowed".to_owned(), Value::Bool(true))],
        },
    ]));

    assert_eq!(
        rendered,
        "([\"meeting\"], [], TripPolicy(shared_room_allowed=True))"
    );
}

#[test]
fn render_python_value_writes_scalars_and_collections() {
    assert_eq!(render_python_value(&Value::Null), "None");
    assert_eq!(render_python_value(&Value::Int(-42)), "-42");
    assert_eq!(render_python_value(&Value::Int(i64::MIN)), "-9223372036854775808");
    assert_eq!(render_python_value(&Value::Tuple(vec![Value::Int(1)])), "(1,)");
    assert_eq!(render_python_value(&Value::Tuple(vec![])), "()");
    assert_eq!(
        render_python_value(&Value::Dict(vec![
            ("a".to_owned(), Value::Bool(false)),
            ("b\"c".to_owned(), Value::String("x\ny".to_owned())),
        ])),
        "{\"a\": False, \"b\\\"c\": \"x\\ny\"}"
    );
}

#[test]
fn python_names_follow_the_canonical_names() {
    assert_eq!(python_function_name("resolve-mission"), "resolve_mission");
    assert_eq!(python_function_name("a.b c"), "a_b_c");
    assert_eq!(python_module_name("secret-service"), "secret_service");
    assert_eq!(python_type_name("mission-status"), "MissionStatus");
    assert_eq!(python_type_name("trip_policy.v2"), "TripPolicyV2");
    assert_eq!(python_type_name("--"), "");
}

#[test]
fn python_annotations_cover_every_type_shape() {
    let ty = CanonicalTypeRef::Result {
        ok: Some(Box::new(CanonicalTypeRef::List(Box::new(CanonicalTypeRef::Named(
            "mission-id".to_owned(),
        ))))),
        err: None,
    };
    assert_eq!(python_annotation(&ty), "tuple[list[MissionId], None]");
    let tuple = CanonicalTypeRef::Tuple(vec![
        CanonicalTypeRef::Primitive(CanonicalPrimitiveType::U8),
        CanonicalTypeRef::Option(Box::new(CanonicalTypeRef::Primitive(
            CanonicalPrimitiveType::Char,
        ))),
    ]);
    assert_eq!(python_annotation(&tuple), "tuple[int, Optional[str]]");
}

fn mission_world() -> CanonicalWorld {
    CanonicalWorld {
        package: None,
        name: "secret-service-default".to_owned(),
        docs: None,
        imports: Vec::new(),
        exports: vec![CanonicalInterface {
            name: "missions".to_owned(),
            docs: None,
            functions: vec![CanonicalFunction {
                name: "resolve-mission".to_owned(),
                docs: Some("Resolve a mission.\n\n  Release any gadgets.  ".to_owned()),
                params: vec![
                    CanonicalParam {
                        name: "mission-id".to_owned(),
                        ty: CanonicalTypeRef::Primitive(CanonicalPrimitiveType::String),
                    },
                    CanonicalParam {
                        name: "notes".to_owned(),
                        ty: CanonicalTypeRef::Option(Box::new(CanonicalTypeRef::Primitive(
                            CanonicalPrimitiveType::String,
                        ))),
                    },
                ],
                result: CanonicalFunctionResult::Scalar(CanonicalTypeRef::Named(
                    "mission".to_owned(),
                )),
            }],
            types: vec![
                CanonicalTypeDef {
                    name: "mission-status".to_owned(),
                    docs: None,
                    kind: CanonicalTypeDefKind::Enum(vec![CanonicalEnumCase {
                        name: "in-progress".to_owned(),
                        docs: Some("Being worked on.".to_owned()),
                    }]),
                },
                CanonicalTypeDef {
                    name: "mission".to_owned(),
                    docs: Some("Mission plan and execution state.".to_owned()),
                    kind: CanonicalTypeDefKind::Record(CanonicalRecord {
                        fields: vec![CanonicalField {
                            name: "assigned-agent-id".to_owned(),
                            docs: None,
                            ty: CanonicalTypeRef::Option(Box::new(CanonicalTypeRef::Primitive(
                                CanonicalPrimitiveType::String,
                            ))),
                        }],
                    }),
                },
            ],
        }],
    }
}

#[test]
fn python_stubs_render_types_and_functions() {
    let rendered = render_python_stubs(&mission_world());
    let expected = [
        "from dataclasses import dataclass",
        "from enum import Enum",
        "from typing import Optional, TypeAlias",
        "",
        "class MissionStatus(Enum):",
        "    # Being worked on.",
        "    INPROGRESS = \"in-progress\"",
        "",
        "@dataclass",
        "class Mission:",
        "    \"\"\"Mission plan and execution state.\"\"\"",
        "    assigned_agent_id: Optional[str]",
        "",
        "def resolve_mission(mission_id: str, notes: Optional[str]) -> Mission:",
        "    \"\"\"",
        "    Resolve a mission.",
        "    Release any gadgets.",
        "    \"\"\"",
        "    ...",
    ]
    .join("\n");
    assert_eq!(rendered, expected);
}

#[test]
fn python_bindings_map_names_and_types() {
    let bindings = canonical_python_bindings(&mission_world());
    assert_eq!(bindings.module_name, "secret_service_default");
    assert_eq!(
        bindings.type_names,
        vec![
            ("mission".to_owned(), "Mission".to_owned()),
            ("mission-status".to_owned(), "MissionStatus".to_owned()),
        ]
    );
    assert_eq!(bindings.functions.len(), 1);
    let f = &bindings.functions[0];
    assert_eq!(f.python_name, "resolve_mission");
    assert_eq!(f.params[0].python_name, "mission_id");
    assert_eq!(f.params[1].annotation, "Optional[str]");
    assert_eq!(f.return_annotation, "Mission");
}

#[test]
fn python_stubs_of_a_world_without_exports_hold_only_imports() {
    let mut world = mission_world();
    world.exports.clear();
    assert_eq!(
        render_python_stubs(&world),
        "from dataclasses import dataclass\nfrom enum import Enum\nfrom typing import Optional, TypeAlias"
    );
}

use pera::canonical::registry::ActionRegistry;

fn catalog_skill(skill: &str, world: CanonicalWorld) -> CatalogSkill {
    CatalogSkill {
        metadata: SkillMetadata::new(skill.to_owned(), world.name.clone()),
        world,
    }
}

#[test]
fn registries_fail_on_a_skill_without_exports_or_a_repeated_action_id() {
    let mut bare = test_world("gamma", "gamma-default", "ping");
    bare.exports = Vec::new();
    let err = ActionRegistry::from_skills(vec![catalog_skill("gamma", bare)]).unwrap_err();
    assert_eq!(err.message_str(), "canonical world has no exported interface");

    let err = ActionRegistry::from_skills(vec![
        catalog_skill("alpha", test_world("alpha", "alpha-default", "ping")),
        catalog_skill("alpha", test_world("alpha", "alpha-other", "ping")),
    ])
    .unwrap_err();
    assert_eq!(err.message_str(), "duplicate canonical action id 'alpha.ping'");

    let registry = ActionRegistry::from_skills(vec![
        catalog_skill("alpha", test_world("alpha", "alpha-default", "ping")),
        catalog_skill("beta", test_world("beta", "beta-default", "ping")),
    ])
    .unwrap();
    assert!(registry.resolve_canonical_action("alpha.ping").is_some());
    assert!(registry.resolve_canonical_action("beta.ping").is_some());
    assert!(registry.resolve_canonical_action("alpha.pong").is_none());
}

#[test]
fn catalogs_also_fail_on_a_repeated_skill_key() {
    let err = SkillCatalog::from_skills(vec![
        catalog_skill("alpha", test_world("alpha", "alpha-default", "ping")),
        catalog_skill("alpha", test_world("alpha", "alpha-default", "pong")),
    ])
    .err()
    .unwrap();
    assert_eq!(err.message_str(), "duplicate catalog skill key 'alpha::::'");
}

#[test]
fn class_names_capitalize_each_word() {
    assert_eq!(python_type_name("calendar-event"), "CalendarEvent");
    assert_eq!(python_type_name("_a__b c.d"), "ABCD");
    assert_eq!(python_type_name("already"), "Already");
}
