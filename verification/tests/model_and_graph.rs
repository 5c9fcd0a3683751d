use r_resources::builder::ResourceGraphBuilder;
use r_resources::graph::ResourceGraph;
use r_resources::key::ResourceKey;
use r_resources::model::NumberValue;
use r_resources::model::ResourceKind;
use r_resources::model::ResourceNode;
use r_resources::model::ResourceOrigin;
use r_resources::model::ResourceValue;
use r_resources::parse::ParsedResource;
use r_resources::parse::ParsedResourceFile;
use r_resources::parse::ResourceKind as ParsedKind;
use r_resources::parse::ScalarValue;
use r_resources::text::sanitize_identifier;

#[test]
fn test_sanitize_identifier() {
    assert_eq!(sanitize_identifier("hello-world"), "hello_world");
    assert_eq!(sanitize_identifier("app.name"), "app_name");
    assert_eq!(sanitize_identifier("my_var"), "my_var");
    assert_eq!(sanitize_identifier("test123"), "test123");
}

#[test]
fn test_resolve_reference_path() {
    assert_eq!(
        r_resources::resolve::resolve_reference_path("string", "app_name", false),
        "string::APP_NAME"
    );
    assert_eq!(
        r_resources::resolve::resolve_reference_path("color", "primary", true),
        "crate::color::PRIMARY"
    );
}

#[test]
fn resource_origin_new() {
    let origin = ResourceOrigin::new("test.xml", false);
    assert_eq!(origin.file, "test.xml");
    assert_eq!(origin.line, None);
    assert_eq!(origin.profile, None);
    assert!(!origin.is_test);
}

#[test]
fn resource_origin_new_test() {
    let origin = ResourceOrigin::new("test.xml", true);
    assert!(origin.is_test);
}

#[test]
fn resource_kind_equality() {
    assert_eq!(ResourceKind::String, ResourceKind::String);
    assert_ne!(ResourceKind::String, ResourceKind::Number);
}

#[test]
fn resource_kind_array() {
    let kind = ResourceKind::Array("string".to_string());
    match kind {
        ResourceKind::Array(ty) => assert_eq!(ty, "string"),
        _ => panic!("expected Array"),
    }
}

#[test]
fn resource_kind_custom() {
    let kind = ResourceKind::Custom("my_type".to_string());
    match kind {
        ResourceKind::Custom(ty) => assert_eq!(ty, "my_type"),
        _ => panic!("expected Custom"),
    }
}

#[test]
fn resource_value_string() {
    let value = ResourceValue::String("test".to_string());
    match value {
        ResourceValue::String(s) => assert_eq!(s, "test"),
        _ => panic!("expected String"),
    }
}

#[test]
fn resource_value_number() {
    let value = ResourceValue::Number(NumberValue::Int(42));
    match value {
        ResourceValue::Number(NumberValue::Int(i)) => assert_eq!(i, 42),
        _ => panic!("expected an integer"),
    }
}

#[test]
fn resource_value_bool() {
    let value = ResourceValue::Bool(true);
    match value {
        ResourceValue::Bool(b) => assert!(b),
        _ => panic!("expected Bool"),
    }
}

#[test]
fn resource_value_color() {
    let value = ResourceValue::Color("#FF0000".to_string());
    match value {
        ResourceValue::Color(c) => assert_eq!(c, "#FF0000"),
        _ => panic!("expected Color"),
    }
}

#[test]
fn number_value_big_decimal() {
    let value = NumberValue::BigDecimal("123.456".to_string());
    match value {
        NumberValue::BigDecimal(s) => assert_eq!(s, "123.456"),
        _ => panic!("expected BigDecimal"),
    }
}

fn string_node(value: &str, file: &str) -> ResourceNode {
    ResourceNode {
        kind: ResourceKind::String,
        value: ResourceValue::String(value.to_string()),
        origin: ResourceOrigin::new(file, false),
    }
}

#[test]
fn graph_default_is_empty() {
    let graph = ResourceGraph::new();
    assert_eq!(graph.nodes().len(), 0);
}

#[test]
fn graph_insert_single_node() {
    let mut graph = ResourceGraph::new();
    let key = ResourceKey::new(vec![], "test");
    let is_duplicate = graph.insert(key.clone(), string_node("value", "test.xml"));
    assert!(!is_duplicate);
    assert_eq!(graph.nodes().len(), 1);
    assert!(graph.get(&key).is_some());
}

#[test]
fn graph_insert_detects_duplicate() {
    let mut graph = ResourceGraph::new();
    let key = ResourceKey::new(vec![], "test");
    assert!(!graph.insert(key.clone(), string_node("first", "test1.xml")));
    assert!(graph.insert(key.clone(), string_node("second", "test2.xml")));
    assert_eq!(graph.nodes().len(), 1);
}

#[test]
fn graph_get_returns_first_node() {
    let mut graph = ResourceGraph::new();
    let key = ResourceKey::new(vec![], "test");
    graph.insert(key.clone(), string_node("first", "test1.xml"));
    graph.insert(key.clone(), string_node("second", "test2.xml"));
    let first = graph.get(&key).expect("node exists");
    match &first.value {
        ResourceValue::String(value) => assert_eq!(value, "first"),
        _ => panic!("expected String"),
    }
}

#[test]
fn graph_get_all_returns_all_nodes() {
    let mut graph = ResourceGraph::new();
    let key = ResourceKey::new(vec![], "test");
    graph.insert(key.clone(), string_node("first", "test1.xml"));
    graph.insert(key.clone(), string_node("second", "test2.xml"));
    let all = graph.get_all(&key).expect("nodes exist");
    assert_eq!(all.len(), 2);
    match &all[0].value {
        ResourceValue::String(value) => assert_eq!(value, "first"),
        _ => panic!("expected String"),
    }
    match &all[1].value {
        ResourceValue::String(value) => assert_eq!(value, "second"),
        _ => panic!("expected String"),
    }
}

#[test]
fn graph_has_duplicates() {
    let mut graph = ResourceGraph::new();
    let key = ResourceKey::new(vec![], "test");
    graph.insert(key.clone(), string_node("first", "test1.xml"));
    assert!(!graph.has_duplicates(&key));
    graph.insert(key.clone(), string_node("second", "test2.xml"));
    assert!(graph.has_duplicates(&key));
}

#[test]
fn graph_get_nonexistent_key() {
    let graph = ResourceGraph::new();
    let key = ResourceKey::new(vec![], "nonexistent");
    assert!(graph.get(&key).is_none());
}

#[test]
fn graph_get_all_nonexistent_key() {
    let graph = ResourceGraph::new();
    let key = ResourceKey::new(vec![], "nonexistent");
    assert!(graph.get_all(&key).is_none());
}

#[test]
fn builds_graph_from_single_file() {
    let parsed = ParsedResourceFile::new(
        "values.xml",
        false,
        vec![ParsedResource {
            name: "auth/title".to_string(),
            kind: ParsedKind::String,
            value: ScalarValue::Text("Login".to_string()),
        }],
    );
    let graph = ResourceGraphBuilder::from_parsed_files(&vec![parsed]);
    assert_eq!(graph.nodes().len(), 1);
    let key = ResourceKey::from_path("auth/title");
    let node = graph.get(&key).expect("node exists");
    match &node.value {
        ResourceValue::String(value) => assert_eq!(value, "Login"),
        _ => panic!("expected String"),
    }
    assert!(node.origin.file.ends_with("values.xml"));
}

#[test]
fn builds_graph_with_numbers_and_bools() {
    let parsed = ParsedResourceFile::new(
        "values.xml",
        false,
        vec![
            ParsedResource {
                name: "max_retries".to_string(),
                kind: ParsedKind::Number,
                value: ScalarValue::Number { value: "3".to_string(), explicit_type: None },
            },
            ParsedResource {
                name: "enabled".to_string(),
                kind: ParsedKind::Bool,
                value: ScalarValue::Bool(true),
            },
        ],
    );
    let graph = ResourceGraphBuilder::from_parsed_files(&vec![parsed]);
    assert_eq!(graph.nodes().len(), 2);
    let number_node = graph.get(&ResourceKey::from_path("max_retries")).unwrap();
    match &number_node.value {
        ResourceValue::Number(NumberValue::Int(i)) => assert_eq!(*i, 3),
        _ => panic!("expected an integer value of three"),
    }
    assert_eq!(number_node.kind, ResourceKind::Number);
    let bool_node = graph.get(&ResourceKey::from_path("enabled")).unwrap();
    match &bool_node.value {
        ResourceValue::Bool(value) => assert!(value),
        _ => panic!("expected Bool"),
    }
}

#[test]
fn handles_duplicate_keys() {
    let file1 = ParsedResourceFile::new(
        "values1.xml",
        false,
        vec![ParsedResource {
            name: "title".to_string(),
            kind: ParsedKind::String,
            value: ScalarValue::Text("First".to_string()),
        }],
    );
    let file2 = ParsedResourceFile::new(
        "values2.xml",
        false,
        vec![ParsedResource {
            name: "title".to_string(),
            kind: ParsedKind::String,
            value: ScalarValue::Text("Second".to_string()),
        }],
    );
    let graph = ResourceGraphBuilder::from_parsed_files(&vec![file1, file2]);
    let key = ResourceKey::from_path("title");
    let all_nodes = graph.get_all(&key).expect("key exists");
    assert_eq!(all_nodes.len(), 2);
    let first_node = graph.get(&key).expect("node exists");
    match &first_node.value {
        ResourceValue::String(value) => assert_eq!(value, "First"),
        _ => panic!("expected String"),
    }
    assert!(graph.has_duplicates(&key));
}

#[test]
fn ignores_invalid_resources() {
    let parsed = ParsedResourceFile::new(
        "values.xml",
        false,
        vec![
            ParsedResource {
                name: "valid_string".to_string(),
                kind: ParsedKind::String,
                value: ScalarValue::Text("Valid".to_string()),
            },
            ParsedResource {
                name: "invalid_number".to_string(),
                kind: ParsedKind::Number,
                value: ScalarValue::Number {
                    value: "not_a_number".to_string(),
                    explicit_type: None,
                },
            },
        ],
    );
    let graph = ResourceGraphBuilder::from_parsed_files(&vec![parsed]);
    assert_eq!(graph.nodes().len(), 1);
    assert!(graph.get(&ResourceKey::from_path("valid_string")).is_some());
    assert!(graph.get(&ResourceKey::from_path("invalid_number")).is_none());
}

#[test]
fn detects_duplicate_keys() {
    let file1 = ParsedResourceFile::new(
        "file1.xml",
        false,
        vec![ParsedResource {
            name: "title".to_string(),
            kind: ParsedKind::String,
            value: ScalarValue::Text("First".to_string()),
        }],
    );
    let file2 = ParsedResourceFile::new(
        "file2.xml",
        false,
        vec![ParsedResource {
            name: "title".to_string(),
            kind: ParsedKind::String,
            value: ScalarValue::Text("Second".to_string()),
        }],
    );
    let graph = ResourceGraphBuilder::from_parsed_files(&vec![file1, file2]);
    assert_eq!(graph.nodes().len(), 1);
    assert_eq!(
        graph.get_all(&ResourceKey::from_path("title")).unwrap().len(),
        2
    );
    let result = r_resources::analysis::validate(&graph);
    assert_eq!(result.warnings.len(), 1);
    assert!(result.warnings[0].message.contains("Duplicate resource key"));
    assert!(result.warnings[0].message.contains("title"));
    assert!(result.warnings[0].message.contains("file1.xml"));
    assert!(result.warnings[0].message.contains("file2.xml"));
    assert_eq!(result.errors.len(), 0);
}

#[test]
fn no_errors_for_unique_keys() {
    let parsed = ParsedResourceFile::new(
        "file.xml",
        false,
        vec![
            ParsedResource {
                name: "title".to_string(),
                kind: ParsedKind::String,
                value: ScalarValue::Text("Hello".to_string()),
            },
            ParsedResource {
                name: "count".to_string(),
                kind: ParsedKind::Number,
                value: ScalarValue::Number { value: "42".to_string(), explicit_type: None },
            },
        ],
    );
    let graph = ResourceGraphBuilder::from_parsed_files(&vec![parsed]);
    let result = r_resources::analysis::validate(&graph);
    assert!(result.warnings.is_empty());
    assert!(result.errors.is_empty());
}

#[test]
fn strict_duplicates_become_errors() {
    let file1 = ParsedResourceFile::new(
        "file1.xml",
        false,
        vec![ParsedResource {
            name: "title".to_string(),
            kind: ParsedKind::String,
            value: ScalarValue::Text("First".to_string()),
        }],
    );
    let file2 = ParsedResourceFile::new(
        "file2.xml",
        false,
        vec![ParsedResource {
            name: "title".to_string(),
            kind: ParsedKind::String,
            value: ScalarValue::Text("Second".to_string()),
        }],
    );
    let graph = ResourceGraphBuilder::from_parsed_files(&vec![file1, file2]);
    let options = r_resources::analysis::ValidationOptions { treat_duplicates_as_errors: true };
    let result = r_resources::analysis::validate_with_options(&graph, options);
    assert!(result.warnings.is_empty());
    assert_eq!(result.errors.len(), 1);
    assert!(result.errors[0].message.contains("Duplicate"));
}
