use r_resources::key::ResourceKey;
use r_resources::model::NumberType;
use r_resources::model::NumberValue;
use r_resources::model::ResourceKind;
use r_resources::model::ResourceOrigin;
use r_resources::model::ResourceNode;
use r_resources::model::ResourceValue;
use r_resources::parse::ParsedResource;
use r_resources::parse::ResourceKind as ParsedKind;
use r_resources::parse::ScalarValue;
use r_resources::types::BoolType;
use r_resources::types::ColorType;
use r_resources::types::NumberTypeHandler;
use r_resources::types::StringType;
use r_resources::types::TemplateType;
use r_resources::types::contains_template_placeholders;
use r_resources::types::count_placeholders;

#[test]
fn bool_test_handler_name() {
    let handler = BoolType;
    assert_eq!(handler.name(), "bool");
}

#[test]
fn bool_test_handler_xml_tags() {
    let handler = BoolType;
    let tags = handler.xml_tags();
    assert_eq!(tags.len(), 1);
    assert!(tags.contains(&"bool"));
}

#[test]
fn bool_test_handler_resource_kind() {
    let handler = BoolType;
    assert_eq!(handler.resource_kind(), ResourceKind::Bool);
}

#[test]
fn color_test_handler_name() {
    let handler = ColorType;
    assert_eq!(handler.name(), "color");
}

#[test]
fn color_test_handler_xml_tags() {
    let handler = ColorType;
    let tags = handler.xml_tags();
    assert_eq!(tags.len(), 1);
    assert!(tags.contains(&"color"));
}

#[test]
fn color_test_handler_resource_kind() {
    let handler = ColorType;
    assert_eq!(handler.resource_kind(), ResourceKind::Color);
}

#[test]
fn number_test_handler_name() {
    let handler = NumberTypeHandler;
    assert_eq!(handler.name(), "number");
}

#[test]
fn number_test_handler_xml_tags() {
    let handler = NumberTypeHandler;
    let tags = handler.xml_tags();
    assert!(tags.contains(&"number"));
    assert!(tags.contains(&"int"));
    assert!(tags.contains(&"float"));
}

#[test]
fn number_test_handler_resource_kind() {
    let handler = NumberTypeHandler;
    assert_eq!(handler.resource_kind(), ResourceKind::Number);
}

#[test]
fn template_test_handler_name() {
    let handler = TemplateType;
    assert_eq!(handler.name(), "template");
}

#[test]
fn template_test_handler_xml_tags() {
    let handler = TemplateType;
    let tags = handler.xml_tags();
    assert_eq!(tags.len(), 1);
    assert!(tags.contains(&"template"));
}

#[test]
fn template_test_handler_resource_kind() {
    let handler = TemplateType;
    assert_eq!(handler.resource_kind(), ResourceKind::Template);
}

#[test]
fn test_contains_template_placeholders() {
    assert!(contains_template_placeholders("Hello %1$s!"));
    assert!(contains_template_placeholders("Count: %1$d"));
    assert!(contains_template_placeholders("Name: %1$s, Age: %2$d"));
    assert!(!contains_template_placeholders("Hello World"));
    assert!(!contains_template_placeholders(""));
    assert!(!contains_template_placeholders("100%"));
}

#[test]
fn test_count_placeholders() {
    assert_eq!(count_placeholders("Hello %1$s!"), 1);
    assert_eq!(count_placeholders("Name: %1$s, Age: %2$d"), 2);
    assert_eq!(count_placeholders("A: %1$s, B: %2$s, C: %3$d"), 3);
    assert_eq!(count_placeholders("Hello World"), 0);
    assert_eq!(count_placeholders("%1$s %1$s"), 1);
}

#[test]
fn string_test_handler_name() {
    let handler = StringType;
    assert_eq!(handler.name(), "string");
}

#[test]
fn test_build_node_true() {
    let handler = BoolType;
    let parsed = ParsedResource {
        name: "enabled".to_string(),
        kind: ParsedKind::Bool,
        value: ScalarValue::Bool(true),
    };
    let origin = ResourceOrigin::new("test.xml", false);
    let result = handler.build_node(&parsed, origin).unwrap();
    assert_eq!(result.kind, ResourceKind::Bool);
    assert!(matches!(result.value, ResourceValue::Bool(true)));
    assert_eq!(result.origin.file, "test.xml");
}

#[test]
fn test_build_node_false() {
    let handler = BoolType;
    let parsed = ParsedResource {
        name: "disabled".to_string(),
        kind: ParsedKind::Bool,
        value: ScalarValue::Bool(false),
    };
    let origin = ResourceOrigin::new("test.xml", false);
    let result = handler.build_node(&parsed, origin).unwrap();
    assert_eq!(result.kind, ResourceKind::Bool);
    assert!(matches!(result.value, ResourceValue::Bool(false)));
}

#[test]
fn test_build_node_invalid_value() {
    let handler = BoolType;
    let parsed = ParsedResource {
        name: "not_bool".to_string(),
        kind: ParsedKind::String,
        value: ScalarValue::Text("not a bool".to_string()),
    };
    let origin = ResourceOrigin::new("test.xml", false);
    assert!(handler.build_node(&parsed, origin).is_none());
}

#[test]
fn test_emit_rust_true() {
    let handler = BoolType;
    let key = ResourceKey { namespace: vec![], name: "enabled".to_string() };
    let node = ResourceNode {
        kind: ResourceKind::Bool,
        value: ResourceValue::Bool(true),
        origin: ResourceOrigin::new("test.xml", false),
    };
    let result = handler.emit_rust(&key, &node, 4).unwrap();
    assert!(result.contains("pub const ENABLED: bool = true;"));
}

#[test]
fn test_emit_rust_false() {
    let handler = BoolType;
    let key = ResourceKey { namespace: vec![], name: "disabled".to_string() };
    let node = ResourceNode {
        kind: ResourceKind::Bool,
        value: ResourceValue::Bool(false),
        origin: ResourceOrigin::new("test.xml", false),
    };
    let result = handler.emit_rust(&key, &node, 4).unwrap();
    assert!(result.contains("pub const DISABLED: bool = false;"));
}

#[test]
fn test_emit_rust_indentation() {
    let handler = BoolType;
    let key = ResourceKey { namespace: vec![], name: "test_bool".to_string() };
    let node = ResourceNode {
        kind: ResourceKind::Bool,
        value: ResourceValue::Bool(true),
        origin: ResourceOrigin::new("test.xml", false),
    };
    let result = handler.emit_rust(&key, &node, 8).unwrap();
    assert!(result.starts_with("        pub const"));
}

#[test]
fn test_emit_rust_color() {
    let handler = ColorType;
    let key = ResourceKey { namespace: vec![], name: "primary".to_string() };
    let node = ResourceNode {
        kind: ResourceKind::Color,
        value: ResourceValue::Color("#FF5722".to_string()),
        origin: ResourceOrigin::new("test.xml", false),
    };
    let result = handler.emit_rust(&key, &node, 4).unwrap();
    assert!(result.contains("pub const PRIMARY: &str = \"#FF5722\";"));
}

#[test]
fn test_emit_rust_int() {
    let handler = NumberTypeHandler;
    let key = ResourceKey { namespace: vec![], name: "test_value".to_string() };
    let node = ResourceNode {
        kind: ResourceKind::Number,
        value: ResourceValue::Number(NumberValue::Int(42)),
        origin: ResourceOrigin::new("test.xml", false),
    };
    let result = handler.emit_rust(&key, &node, 4).unwrap();
    assert!(result.contains("pub const TEST_VALUE: i64 = 42;"));
}

#[test]
fn test_emit_rust_float() {
    let handler = NumberTypeHandler;
    let key = ResourceKey { namespace: vec![], name: "pi".to_string() };
    let node = ResourceNode {
        kind: ResourceKind::Number,
        value: ResourceValue::Number(NumberValue::Float("3.14".to_string())),
        origin: ResourceOrigin::new("test.xml", false),
    };
    let result = handler.emit_rust(&key, &node, 4).unwrap();
    assert!(result.contains("pub const PI: f64"));
    assert!(result.contains("3.14"));
}

#[test]
fn test_emit_rust_big_decimal() {
    let handler = NumberTypeHandler;
    let key = ResourceKey { namespace: vec![], name: "big_number".to_string() };
    let node = ResourceNode {
        kind: ResourceKind::Number,
        value: ResourceValue::Number(NumberValue::BigDecimal(
            "12345678901234567890.123456789".to_string(),
        )),
        origin: ResourceOrigin::new("test.xml", false),
    };
    let result = handler.emit_rust(&key, &node, 4).unwrap();
    assert!(result.contains("pub static BIG_NUMBER"));
    assert!(result.contains("LazyLock"));
    assert!(result.contains("BigDecimal"));
    assert!(result.contains("12345678901234567890.123456789"));
    assert!(result.contains("from_str"));
}

#[test]
fn test_emit_rust_typed() {
    let handler = NumberTypeHandler;
    let key = ResourceKey { namespace: vec![], name: "small_int".to_string() };
    let node = ResourceNode {
        kind: ResourceKind::Number,
        value: ResourceValue::Number(NumberValue::Typed {
            literal: "127".to_string(),
            ty: NumberType::I8,
        }),
        origin: ResourceOrigin::new("test.xml", false),
    };
    let result = handler.emit_rust(&key, &node, 4).unwrap();
    assert!(result.contains("pub const SMALL_INT: i8 = 127;"));
}

#[test]
fn test_build_node_with_template() {
    let handler = TemplateType;
    let parsed = ParsedResource {
        name: "welcome_message".to_string(),
        kind: ParsedKind::String,
        value: ScalarValue::Text("Hello %1$s!".to_string()),
    };
    let origin = ResourceOrigin::new("test.xml", false);
    let result = handler.build_node(&parsed, origin);
    assert!(result.is_some());
    let node = result.unwrap();
    assert_eq!(node.kind, ResourceKind::Template);
    assert!(matches!(
        node.value,
        ResourceValue::Template { text: ref s, .. } if s == "Hello %1$s!"
    ));
}

#[test]
fn test_build_node_without_template() {
    let handler = TemplateType;
    let parsed = ParsedResource {
        name: "simple_string".to_string(),
        kind: ParsedKind::String,
        value: ScalarValue::Text("Hello World".to_string()),
    };
    let origin = ResourceOrigin::new("test.xml", false);
    assert!(handler.build_node(&parsed, origin).is_none());
}

#[test]
fn test_emit_rust_single_placeholder() {
    let handler = TemplateType;
    let key = ResourceKey { namespace: vec![], name: "welcome".to_string() };
    let node = ResourceNode {
        kind: ResourceKind::Template,
        value: ResourceValue::Template { text: "Hello %1$s!".to_string(), params: vec![] },
        origin: ResourceOrigin::new("test.xml", false),
    };
    let result = handler.emit_rust(&key, &node, 4).unwrap();
    assert!(result.contains("pub fn welcome"));
    assert!(result.contains("arg1: &str"));
    assert!(result.contains("format!"));
}

#[test]
fn test_emit_rust_multiple_placeholders() {
    let handler = TemplateType;
    let key = ResourceKey { namespace: vec![], name: "message".to_string() };
    let node = ResourceNode {
        kind: ResourceKind::Template,
        value: ResourceValue::Template {
            text: "Name: %1$s, Age: %2$d".to_string(),
            params: vec![],
        },
        origin: ResourceOrigin::new("test.xml", false),
    };
    let result = handler.emit_rust(&key, &node, 4).unwrap();
    assert!(result.contains("pub fn message"));
    assert!(result.contains("arg1: &str"));
    assert!(result.contains("arg2: &str"));
    assert!(result.contains("format!"));
}

#[test]
fn test_emit_rust_no_placeholders() {
    let handler = TemplateType;
    let key = ResourceKey { namespace: vec![], name: "simple".to_string() };
    let node = ResourceNode {
        kind: ResourceKind::Template,
        value: ResourceValue::Template { text: "Hello World".to_string(), params: vec![] },
        origin: ResourceOrigin::new("test.xml", false),
    };
    let result = handler.emit_rust(&key, &node, 4).unwrap();
    assert!(result.contains("pub const") && result.contains("SIMPLE"));
}

#[test]
fn test_emit_rust_wrong_value_type() {
    let handler = TemplateType;
    let key = ResourceKey { namespace: vec![], name: "not_template".to_string() };
    let node = ResourceNode {
        kind: ResourceKind::Template,
        value: ResourceValue::String("Hello".to_string()),
        origin: ResourceOrigin::new("test.xml", false),
    };
    assert!(handler.emit_rust(&key, &node, 4).is_none());
}
