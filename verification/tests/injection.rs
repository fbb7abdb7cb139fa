use springboot::component::Component;
use springboot::component::FieldValue;
use springboot::component::Primitive;
use springboot::config::ConfigTree;
use springboot::config::ConfigValue;
use springboot::config::FieldShape;
use springboot::config::ShapeDef;
use springboot::config::ValueKind;
use springboot::errors::BootError;
use springboot::app::AppBuilder;
use springboot::app::ServerConfig;
use springboot::inject::CtorOutcome;
use springboot::inject::Service;
use springboot::inject::ServiceRegistrar;
use springboot::inject::FieldPlan;
use springboot::inject::InjectKind;
use springboot::inject::resolve_service;
use springboot::inject::ServiceDescriptor;
use springboot::inject::validate_descriptor;
use springboot::registry::ComponentRegistry;

const DB: u64 = 20;
const SVC: u64 = 21;

fn mongo_shape() -> ShapeDef {
    ShapeDef {
        prefix: "mongo".to_string(),
        fields: vec![
            FieldShape { name: "host".to_string(), kind: ValueKind::Text },
            FieldShape { name: "port".to_string(), kind: ValueKind::Number },
        ],
    }
}

fn full_descriptor() -> ServiceDescriptor {
    ServiceDescriptor {
        type_key: SVC,
        name: "MongoService".to_string(),
        singleton: true,
        fields: vec![
            FieldPlan {
                name: "db".to_string(),
                kind: InjectKind::ComponentRef { type_key: DB },
            },
            FieldPlan {
                name: "config".to_string(),
                kind: InjectKind::ConfigShape { prefix_override: None, shape: mongo_shape() },
            },
            FieldPlan {
                name: "conn".to_string(),
                kind: InjectKind::Constructor { arg_fields: vec![1] },
            },
        ],
    }
}

fn loaded_config() -> ConfigTree {
    ConfigTree::load(
        vec![
            ("mongo.host".to_string(), ConfigValue::Text("localhost".to_string())),
            ("mongo.port".to_string(), ConfigValue::Number(27017)),
        ],
        vec![],
    )
}

#[test]
fn resolution_follows_declaration_order() {
    let mut reg = ComponentRegistry::new();
    reg.insert(DB, Component::Handle(42)).unwrap();
    let ctors = vec![CtorOutcome::Built(Primitive::Handle(7))];
    let rs = resolve_service(&full_descriptor(), &reg, &loaded_config(), &ctors).unwrap();
    assert_eq!(rs.type_key, SVC);
    assert_eq!(rs.name, "MongoService");
    assert_eq!(rs.fields.len(), 3);
    assert_eq!(rs.fields[0].name, "db");
    assert_eq!(rs.fields[0].value, FieldValue::Injected { type_key: DB });
    assert_eq!(rs.fields[1].name, "config");
    assert_eq!(
        rs.fields[1].value,
        FieldValue::FromConfig(vec![
            ConfigValue::Text("localhost".to_string()),
            ConfigValue::Number(27017),
        ])
    );
    assert_eq!(rs.fields[2].name, "conn");
    assert_eq!(rs.fields[2].value, FieldValue::Constructed(Primitive::Handle(7)));
}

#[test]
fn unregistered_component_fails_naming_field_and_type() {
    let reg = ComponentRegistry::new();
    let ctors = vec![CtorOutcome::Built(Primitive::Handle(7))];
    match resolve_service(&full_descriptor(), &reg, &loaded_config(), &ctors) {
        Err(BootError::ComponentNotFound { field, type_key }) => {
            assert_eq!(field, "db");
            assert_eq!(type_key, DB);
        }
        other => panic!("expected ComponentNotFound, got {:?}", other),
    }
}

#[test]
fn config_error_propagates_out_of_resolution() {
    let mut reg = ComponentRegistry::new();
    reg.insert(DB, Component::Handle(42)).unwrap();
    let empty = ConfigTree::load(vec![], vec![]);
    let ctors = vec![CtorOutcome::Built(Primitive::Handle(7))];
    match resolve_service(&full_descriptor(), &reg, &empty, &ctors) {
        Err(BootError::ConfigMissing { prefix }) => assert_eq!(prefix, "mongo"),
        other => panic!("expected ConfigMissing, got {:?}", other),
    }
}

#[test]
fn constructor_failure_becomes_construction_failure() {
    let mut reg = ComponentRegistry::new();
    reg.insert(DB, Component::Handle(42)).unwrap();
    let ctors = vec![CtorOutcome::CtorFailed("connection refused".to_string())];
    match resolve_service(&full_descriptor(), &reg, &loaded_config(), &ctors) {
        Err(BootError::ConstructorFailure { field, detail }) => {
            assert_eq!(field, "conn");
            assert_eq!(detail, "connection refused");
        }
        other => panic!("expected ConstructorFailure, got {:?}", other),
    }
}

#[test]
fn forward_reference_fails_shape_validation() {
    let forward = ServiceDescriptor {
        type_key: SVC,
        name: "Bad".to_string(),
        singleton: true,
        fields: vec![
            FieldPlan {
                name: "conn".to_string(),
                kind: InjectKind::Constructor { arg_fields: vec![1] },
            },
            FieldPlan {
                name: "config".to_string(),
                kind: InjectKind::ConfigShape { prefix_override: None, shape: mongo_shape() },
            },
        ],
    };
    assert!(!validate_descriptor(&forward));
    assert!(validate_descriptor(&full_descriptor()));
}

#[test]
fn server_config_builds_as_a_service_from_the_web_section() {
    let reg = ComponentRegistry::new();
    let tree = ConfigTree::load(
        vec![
            ("web.port".to_string(), ConfigValue::Number(9000)),
            ("web.graceful".to_string(), ConfigValue::Truth(false)),
            ("web.connect_info".to_string(), ConfigValue::Truth(true)),
        ],
        vec![],
    );
    let sc = ServerConfig::build(&reg, &tree).unwrap();
    assert_eq!(sc, ServerConfig { port: 9000, graceful: false, connect_info: true });
    let empty = ConfigTree::load(vec![], vec![]);
    match ServerConfig::build(&reg, &empty) {
        Err(BootError::ConfigMissing { prefix }) => assert_eq!(prefix, "web"),
        other => panic!("expected ConfigMissing, got {:?}", other),
    }
}

#[test]
fn a_descriptor_installs_itself_as_a_registrar() {
    let tree = ConfigTree::load(
        vec![
            ("mongo.host".to_string(), ConfigValue::Text("localhost".to_string())),
            ("mongo.port".to_string(), ConfigValue::Number(27017)),
        ],
        vec![],
    );
    let mut app = AppBuilder::new(tree);
    let desc = ServiceDescriptor {
        type_key: SVC,
        name: "ConfigOnly".to_string(),
        singleton: true,
        fields: vec![FieldPlan {
            name: "config".to_string(),
            kind: InjectKind::ConfigShape { prefix_override: None, shape: mongo_shape() },
        }],
    };
    desc.install_service(&mut app).unwrap();
    match app.get_component(SVC) {
        Some(Component::Service(rs)) => assert_eq!(rs.name, "ConfigOnly"),
        other => panic!("expected a resolved service, got {:?}", other),
    }
    match desc.install_service(&mut app) {
        Err(BootError::DuplicateComponent { type_key }) => assert_eq!(type_key, SVC),
        other => panic!("expected DuplicateComponent, got {:?}", other),
    }
}

#[test]
fn explicit_prefix_overrides_the_shape_prefix() {
    let desc = ServiceDescriptor {
        type_key: SVC,
        name: "S".to_string(),
        singleton: false,
        fields: vec![FieldPlan {
            name: "config".to_string(),
            kind: InjectKind::ConfigShape {
                prefix_override: Some("alt".to_string()),
                shape: mongo_shape(),
            },
        }],
    };
    let tree = ConfigTree::load(
        vec![
            ("alt.host".to_string(), ConfigValue::Text("other".to_string())),
            ("alt.port".to_string(), ConfigValue::Number(1)),
        ],
        vec![],
    );
    let reg = ComponentRegistry::new();
    let rs = resolve_service(&desc, &reg, &tree, &vec![]).unwrap();
    assert_eq!(
        rs.fields[0].value,
        FieldValue::FromConfig(vec![
            ConfigValue::Text("other".to_string()),
            ConfigValue::Number(1),
        ])
    );
}
