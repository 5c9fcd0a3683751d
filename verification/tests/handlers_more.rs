use r_resources::key::ResourceKey;
use r_resources::model::NumberValue;
use r_resources::model::ResourceKind;
use r_resources::model::ResourceNode;
use r_resources::model::ResourceOrigin;
use r_resources::model::ResourceValue;
use r_resources::parse::ParsedResource;
use r_resources::parse::ResourceKind as ParsedKind;
use r_resources::parse::ScalarValue;
use r_resources::types::BoolType;
use r_resources::types::ColorType;
use r_resources::types::NumberTypeHandler;
use r_resources::types::TemplateType;

fn origin() -> ResourceOrigin {
    ResourceOrigin::new("test.xml", false)
}

#[test]
fn test_build_node_wrong_type() {
    let handler = BoolType;
    let parsed = ParsedResource {
        name: "not_bool".to_string(),
        kind: ParsedKind::Color,
        value: ScalarValue::Color("#FF0000".to_string()),
    };
    assert!(handler.build_node(&parsed, origin()).is_none());
}

#[test]
fn bool_test_emit_rust_wrong_value_type() {
    let handler = BoolType;
    let key = ResourceKey { namespace: vec![], name: "not_bool".to_string() };
    let node = ResourceNode {
        kind: ResourceKind::Bool,
        value: ResourceValue::Color("#FF0000".to_string()),
        origin: origin(),
    };
    assert!(handler.emit_rust(&key, &node, 4).is_none());
}

#[test]
fn test_emit_rust_namespaced() {
    let handler = BoolType;
    let key = ResourceKey {
        namespace: vec!["settings".to_string(), "feature".to_string()],
        name: "enabled".to_string(),
    };
    let node = ResourceNode {
        kind: ResourceKind::Bool,
        value: ResourceValue::Bool(true),
        origin: origin(),
    };
    let result = handler.emit_rust(&key, &node, 4).unwrap();
    assert!(result.contains("pub const ENABLED: bool = true;"));
}

#[test]
fn test_emit_rust_various_names() {
    let handler = BoolType;
    let names = ["a", "snake_case", "with-dash", "x123"];
    for name in names {
        let key = ResourceKey { namespace: vec![], name: name.to_string() };
        let node = ResourceNode {
            kind: ResourceKind::Bool,
            value: ResourceValue::Bool(true),
            origin: origin(),
        };
        let result = handler.emit_rust(&key, &node, 4);
        assert!(result.is_some(), "Failed for name: {}", name);
    }
}

#[test]
fn test_build_node_multiple_true() {
    let handler = BoolType;
    let cases = [("one", true), ("two", true), ("three", false)];
    for (name, value) in cases {
        let parsed = ParsedResource {
            name: name.to_string(),
            kind: ParsedKind::Bool,
            value: ScalarValue::Bool(value),
        };
        let result = handler.build_node(&parsed, origin()).unwrap();
        assert_eq!(result.kind, ResourceKind::Bool);
        assert!(matches!(result.value, ResourceValue::Bool(v) if v == value));
    }
}

#[test]
fn test_build_node_valid_color() {
    let handler = ColorType;
    let parsed = ParsedResource {
        name: "primary_color".to_string(),
        kind: ParsedKind::Color,
        value: ScalarValue::Color("#FF0000".to_string()),
    };
    let result = handler.build_node(&parsed, origin()).unwrap();
    assert_eq!(result.kind, ResourceKind::Color);
    assert!(matches!(result.value, ResourceValue::Color(ref s) if s == "#FF0000"));
    assert_eq!(result.origin.file, "test.xml");
}

#[test]
fn test_build_node_rgb_color() {
    let handler = ColorType;
    let parsed = ParsedResource {
        name: "bg_color".to_string(),
        kind: ParsedKind::Color,
        value: ScalarValue::Color("rgb(255, 0, 0)".to_string()),
    };
    let result = handler.build_node(&parsed, origin()).unwrap();
    assert!(matches!(result.value, ResourceValue::Color(ref s) if s == "rgb(255, 0, 0)"));
}

#[test]
fn test_build_node_named_color() {
    let handler = ColorType;
    let parsed = ParsedResource {
        name: "text_color".to_string(),
        kind: ParsedKind::Color,
        value: ScalarValue::Color("red".to_string()),
    };
    let result = handler.build_node(&parsed, origin()).unwrap();
    assert!(matches!(result.value, ResourceValue::Color(ref s) if s == "red"));
}

#[test]
fn test_emit_rust_rgb_color() {
    let handler = ColorType;
    let key = ResourceKey { namespace: vec![], name: "bg".to_string() };
    let node = ResourceNode {
        kind: ResourceKind::Color,
        value: ResourceValue::Color("rgb(1, 2, 3)".to_string()),
        origin: origin(),
    };
    let result = handler.emit_rust(&key, &node, 4).unwrap();
    assert!(result.contains("pub const BG: &str = \"rgb(1, 2, 3)\";"));
}

#[test]
fn test_build_node() {
    let handler = NumberTypeHandler;
    let parsed = ParsedResource {
        name: "test".to_string(),
        kind: ParsedKind::Number,
        value: ScalarValue::Number { value: "42".to_string(), explicit_type: None },
    };
    let result = handler.build_node(&parsed, origin()).unwrap();
    assert_eq!(result.kind, ResourceKind::Number);
    assert!(matches!(result.value, ResourceValue::Number(NumberValue::Int(42))));
}

#[test]
fn test_build_node_with_explicit_type() {
    let handler = NumberTypeHandler;
    let parsed = ParsedResource {
        name: "test".to_string(),
        kind: ParsedKind::Number,
        value: ScalarValue::Number {
            value: "127".to_string(),
            explicit_type: Some("i8".to_string()),
        },
    };
    let result = handler.build_node(&parsed, origin()).unwrap();
    assert_eq!(result.kind, ResourceKind::Number);
    assert!(matches!(result.value, ResourceValue::Number(NumberValue::Typed { .. })));
}

#[test]
fn test_build_node_invalid_number() {
    let handler = NumberTypeHandler;
    let parsed = ParsedResource {
        name: "test".to_string(),
        kind: ParsedKind::Number,
        value: ScalarValue::Number { value: "not_a_number".to_string(), explicit_type: None },
    };
    assert!(handler.build_node(&parsed, origin()).is_none());
}

#[test]
fn test_build_node_with_explicit_template() {
    let handler = TemplateType;
    let parsed = ParsedResource {
        name: "welcome_message".to_string(),
        kind: ParsedKind::Template,
        value: ScalarValue::Text("Hello %1$s!".to_string()),
    };
    let result = handler.build_node(&parsed, origin()).unwrap();
    assert_eq!(result.kind, ResourceKind::Template);
    assert!(matches!(
        result.value,
        ResourceValue::Template { text: ref s, .. } if s == "Hello %1$s!"
    ));
}

#[test]
fn test_build_node_wrong_value_type() {
    let handler = TemplateType;
    let parsed = ParsedResource {
        name: "not_template".to_string(),
        kind: ParsedKind::Bool,
        value: ScalarValue::Bool(true),
    };
    assert!(handler.build_node(&parsed, origin()).is_none());
}

#[test]
fn template_test_emit_rust_indentation() {
    let handler = TemplateType;
    let key = ResourceKey { namespace: vec![], name: "test_template".to_string() };
    let node = ResourceNode {
        kind: ResourceKind::Template,
        value: ResourceValue::Template { text: "Hello %1$s!".to_string(), params: vec![] },
        origin: origin(),
    };
    let result = handler.emit_rust(&key, &node, 8).unwrap();
    assert!(result.starts_with("        pub fn"));
}

#[test]
fn template_test_emit_rust_namespaced() {
    let handler = TemplateType;
    let key = ResourceKey {
        namespace: vec!["ui".to_string(), "messages".to_string()],
        name: "welcome".to_string(),
    };
    let node = ResourceNode {
        kind: ResourceKind::Template,
        value: ResourceValue::Template { text: "Hello %1$s!".to_string(), params: vec![] },
        origin: origin(),
    };
    let result = handler.emit_rust(&key, &node, 4).unwrap();
    assert!(result.contains("pub fn welcome"));
}

#[test]
fn number_value_typed() {
    let value = NumberValue::Typed {
        literal: "127".to_string(),
        ty: r_resources::model::NumberType::I8,
    };
    match value {
        NumberValue::Typed { literal, ty } => {
            assert_eq!(literal, "127");
            assert_eq!(ty, r_resources::model::NumberType::I8);
        }
        _ => panic!("expected a typed value"),
    }
}

#[test]
fn unknown_placeholder_stays_literal_in_format_string() {
    let handler = TemplateType;
    let key = ResourceKey { namespace: vec![], name: "greeting".to_string() };
    let node = ResourceNode {
        kind: ResourceKind::Template,
        value: ResourceValue::Template {
            text: "Hello {who}, {unknown} and {open".to_string(),
            params: vec![r_resources::model::TemplateParam {
                name: "who".to_string(),
                value: r_resources::model::TemplateParamValue::String,
            }],
        },
        origin: origin(),
    };
    let result = handler.emit_rust(&key, &node, 4).unwrap();
    assert!(result.contains("format!(\"Hello {}, {{unknown}} and {{open\", who)"));
}

#[test]
fn positional_template_keeps_stray_braces_literal() {
    let handler = TemplateType;
    let key = ResourceKey { namespace: vec![], name: "set_note".to_string() };
    let node = ResourceNode {
        kind: ResourceKind::Template,
        value: ResourceValue::Template {
            text: "{a, b} has %1$d members".to_string(),
            params: vec![],
        },
        origin: origin(),
    };
    let result = handler.emit_rust(&key, &node, 4).unwrap();
    assert!(result.contains("format!(\"{{a, b}} has {} members\", arg1)"));
}
