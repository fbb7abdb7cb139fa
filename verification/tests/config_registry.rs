use springboot::config::ConfigTree;
use springboot::config::ConfigValue;
use springboot::config::FieldShape;
use springboot::config::ShapeDef;
use springboot::config::ValueKind;
use springboot::errors::BootError;

fn entry(key: &str, value: ConfigValue) -> (String, ConfigValue) {
    (key.to_string(), value)
}

fn db_shape() -> ShapeDef {
    ShapeDef {
        prefix: "db".to_string(),
        fields: vec![
            FieldShape { name: "host".to_string(), kind: ValueKind::Text },
            FieldShape { name: "port".to_string(), kind: ValueKind::Number },
            FieldShape { name: "tls".to_string(), kind: ValueKind::Truth },
        ],
    }
}

#[test]
fn extract_reads_fields_in_declaration_order() {
    let tree = ConfigTree::load(
        vec![
            entry("db.host", ConfigValue::Text("localhost".to_string())),
            entry("db.port", ConfigValue::Number(27017)),
            entry("db.tls", ConfigValue::Truth(false)),
            entry("other.key", ConfigValue::Number(5)),
        ],
        vec![],
    );
    let values = tree.extract("db", &db_shape()).unwrap();
    assert_eq!(
        values,
        vec![
            ConfigValue::Text("localhost".to_string()),
            ConfigValue::Number(27017),
            ConfigValue::Truth(false),
        ]
    );
}

#[test]
fn environment_source_overrides_file_source() {
    let tree = ConfigTree::load(
        vec![
            entry("db.host", ConfigValue::Text("from-file".to_string())),
            entry("db.port", ConfigValue::Number(1)),
            entry("db.tls", ConfigValue::Truth(false)),
        ],
        vec![entry("db.host", ConfigValue::Text("from-env".to_string()))],
    );
    let values = tree.extract("db", &db_shape()).unwrap();
    assert_eq!(values[0], ConfigValue::Text("from-env".to_string()));
    assert_eq!(values[1], ConfigValue::Number(1));
}

#[test]
fn missing_subtree_is_config_missing() {
    let tree = ConfigTree::load(vec![entry("web.port", ConfigValue::Number(80))], vec![]);
    match tree.extract("db", &db_shape()) {
        Err(BootError::ConfigMissing { prefix }) => assert_eq!(prefix, "db"),
        other => panic!("expected ConfigMissing, got {:?}", other),
    }
}

#[test]
fn missing_field_is_type_mismatch_naming_the_field() {
    let tree = ConfigTree::load(
        vec![
            entry("db.host", ConfigValue::Text("h".to_string())),
            entry("db.port", ConfigValue::Number(1)),
        ],
        vec![],
    );
    match tree.extract("db", &db_shape()) {
        Err(BootError::ConfigTypeMismatch { prefix, detail }) => {
            assert_eq!(prefix, "db");
            assert_eq!(detail, "tls");
        }
        other => panic!("expected ConfigTypeMismatch, got {:?}", other),
    }
}

#[test]
fn wrong_kind_is_type_mismatch_naming_the_field() {
    let tree = ConfigTree::load(
        vec![
            entry("db.host", ConfigValue::Text("h".to_string())),
            entry("db.port", ConfigValue::Text("not-a-number".to_string())),
            entry("db.tls", ConfigValue::Truth(true)),
        ],
        vec![],
    );
    match tree.extract("db", &db_shape()) {
        Err(BootError::ConfigTypeMismatch { prefix, detail }) => {
            assert_eq!(prefix, "db");
            assert_eq!(detail, "port");
        }
        other => panic!("expected ConfigTypeMismatch, got {:?}", other),
    }
}

#[test]
fn write_then_extract_round_trips() {
    let mut tree = ConfigTree::load(
        vec![entry("unrelated.noise", ConfigValue::Number(9))],
        vec![],
    );
    let shape = db_shape();
    let written = vec![
        ConfigValue::Text("db.example".to_string()),
        ConfigValue::Number(5432),
        ConfigValue::Truth(true),
    ];
    tree.write_shape("db", &shape, &written);
    let read_back = tree.extract("db", &shape).unwrap();
    assert_eq!(read_back, written);
}

#[test]
fn empty_prefix_addresses_bare_names() {
    let tree = ConfigTree::load(vec![entry("name", ConfigValue::Text("top".to_string()))], vec![]);
    let shape = ShapeDef {
        prefix: "".to_string(),
        fields: vec![FieldShape { name: "name".to_string(), kind: ValueKind::Text }],
    };
    let values = tree.extract("", &shape).unwrap();
    assert_eq!(values, vec![ConfigValue::Text("top".to_string())]);
}
