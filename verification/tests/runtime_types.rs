use r_resources::Color;
use r_resources::UrlParts;
use r_resources::key::ResourceKey;
use r_resources::loader::BuildPlan;
use r_resources::loader::LoaderError;
use r_resources::loader::load_resources;
use r_resources::model::ResourceKind;
use r_resources::model::ResourceNode;
use r_resources::model::ResourceOrigin;
use r_resources::model::ResourceValue;
use r_resources::parse_hex_argb;
use r_resources::split_url_parts;
use r_resources::parse::ScalarValue;
use r_resources::templates::TemplateState;
use r_resources::templates::finalize_template;
use r_resources::templates::handle_param_tag;
use r_resources::templates::handle_template_attribute;
use r_resources::types::ColorType;
use r_resources::types::StringType;

#[test]
fn test_color_api() {
    let c = Color::new(0xFF, 0x57, 0x22, 0xFF);
    assert_eq!(c.as_rgb(), (0xFF, 0x57, 0x22));
    assert_eq!(c.as_hex(), "#FF5722");
    assert_eq!(c.as_u32(), 0xFFFF5722);
    let translucent = Color::new(0xFF, 0x57, 0x22, 0xAA);
    assert_eq!(translucent.as_hex(), "#AAFF5722");
}

#[test]
fn test_urlparts_api() {
    let parts = UrlParts::new("https", "example.test", "/a/b");
    assert_eq!(parts.scheme(), "https");
    assert_eq!(parts.host(), "example.test");
    assert_eq!(parts.path(), "/a/b");
}

#[test]
fn hex_argb_parses_six_and_eight_digits() {
    assert_eq!(parse_hex_argb("#FF5722"), Some((0xFF, 0xFF, 0x57, 0x22)));
    assert_eq!(parse_hex_argb("#AAFF5722"), Some((0xAA, 0xFF, 0x57, 0x22)));
    assert_eq!(parse_hex_argb("FF5722"), None);
    assert_eq!(parse_hex_argb("#GG5722"), None);
    assert_eq!(parse_hex_argb("#FFF"), None);
}

#[test]
fn url_splits_into_parts() {
    assert_eq!(
        split_url_parts("https://example.test/a/b"),
        Some(("https".to_string(), "example.test".to_string(), "/a/b".to_string()))
    );
    assert_eq!(
        split_url_parts("https://example.test"),
        Some(("https".to_string(), "example.test".to_string(), "/".to_string()))
    );
    assert_eq!(split_url_parts("no scheme here"), None);
}

#[test]
fn scalar_value_accessors() {
    let text = ScalarValue::Text("hello".to_string());
    assert_eq!(text.as_text(), Some("hello"));
    assert_eq!(text.as_number(), None);
    assert_eq!(text.as_bool(), None);
    assert_eq!(text.as_color(), None);
    let number = ScalarValue::Number { value: "42".to_string(), explicit_type: Some("i8".to_string()) };
    assert_eq!(number.as_text(), Some("42"));
    assert_eq!(number.as_number(), Some("42"));
    assert_eq!(number.number_explicit_type(), Some("i8"));
    let flag = ScalarValue::Bool(true);
    assert_eq!(flag.as_bool(), Some(true));
    let color = ScalarValue::Color("#FF0000".to_string());
    assert_eq!(color.as_color(), Some("#FF0000"));
}

#[test]
fn template_state_round_trip() {
    let mut state = TemplateState::new();
    assert!(finalize_template(&state).is_none());
    handle_template_attribute("Hi {who}", &mut state);
    handle_param_tag("who", "string", &mut state);
    handle_param_tag("count", "int", &mut state);
    let value = finalize_template(&state).expect("template finalizes");
    match value {
        ScalarValue::Template { text, params } => {
            assert_eq!(text, "Hi {who}");
            assert_eq!(params.len(), 2);
            assert_eq!(params[0].name, "who");
            assert_eq!(params[1].name, "count");
        }
        _ => panic!("expected a template value"),
    }
    state.reset();
    assert!(finalize_template(&state).is_none());
}

#[test]
fn string_handler_classifies_references() {
    let handler = StringType;
    let parsed = r_resources::parse::ParsedResource::string("alias", "@string/app_name");
    let node = handler
        .build_node(&parsed, ResourceOrigin::new("values.xml", false))
        .unwrap();
    assert!(matches!(
        node.value,
        ResourceValue::Reference { ref resource_type, ref key }
            if resource_type == "string" && key == "app_name"
    ));
}

#[test]
fn string_handler_emits_escaped_constant() {
    let handler = StringType;
    let key = ResourceKey { namespace: vec![], name: "greeting".to_string() };
    let node = ResourceNode {
        kind: ResourceKind::String,
        value: ResourceValue::String("say \"hi\"".to_string()),
        origin: ResourceOrigin::new("values.xml", false),
    };
    let code = handler.emit_rust(&key, &node, 4).unwrap();
    assert!(code.contains("pub const GREETING: &str = \"say \\\"hi\\\"\";"));
}

#[test]
fn test_emit_rust_color_with_special_chars() {
    let handler = ColorType;
    let key = ResourceKey { namespace: vec![], name: "special_color".to_string() };
    let node = ResourceNode {
        kind: ResourceKind::Color,
        value: ResourceValue::Color("#FF\"test\"".to_string()),
        origin: ResourceOrigin::new("test.xml", false),
    };
    let result = handler.emit_rust(&key, &node, 4).unwrap();
    assert!(result.contains("pub const SPECIAL_COLOR: &str"));
    assert!(result.contains("#FF"));
    assert!(result.contains("\""));
}

#[test]
fn fails_when_resources_dir_missing() {
    let plan = BuildPlan::new("res", None, "debug");
    let err = load_resources(&plan, None, None).err().unwrap();
    assert!(matches!(err, LoaderError::MissingDirectory(_)));
}

#[test]
fn load_files_and_apply_profile_filtering() {
    let plan = BuildPlan::new("res", Some("res_tests".to_string()), "release");
    let main = vec![(
        "values.xml".to_string(),
        "\n<resources>\n    <string name=\"visible\" profile=\"release\">prod</string>\n    <string name=\"hidden\" profile=\"debug\">dbg</string>\n</resources>\n".to_string(),
    )];
    let tests = vec![(
        "tests.xml".to_string(),
        "\n<resources>\n    <string name=\"test_only\">value</string>\n</resources>\n".to_string(),
    )];
    let files = load_resources(&plan, Some(main), Some(tests)).expect("loader succeeds");
    assert_eq!(files.len(), 2);
    let prod_file = files.iter().find(|f| !f.is_test).expect("prod file exists");
    assert!(prod_file.contents.contains("visible"));
    assert!(!prod_file.contents.contains("hidden"));
    let test_file = files.iter().find(|f| f.is_test).expect("test file exists");
    assert!(test_file.contents.contains("test_only"));
}

#[test]
fn missing_tests_dir_is_ignored() {
    let plan = BuildPlan::new("res", Some("missing_tests".to_string()), "debug");
    let main = vec![("values.xml".to_string(), "<resources></resources>".to_string())];
    let files = load_resources(&plan, Some(main), None).expect("loader succeeds");
    assert_eq!(files.len(), 1);
    assert!(!files[0].is_test);
}

#[test]
fn loader_orders_files_by_path() {
    let plan = BuildPlan::new("res", None, "debug");
    let main = vec![
        ("b.xml".to_string(), "<resources></resources>".to_string()),
        ("a.xml".to_string(), "<resources></resources>".to_string()),
        ("notes.txt".to_string(), "ignored".to_string()),
    ];
    let files = load_resources(&plan, Some(main), None).expect("loader succeeds");
    assert_eq!(files.len(), 2);
    assert_eq!(files[0].path, "a.xml");
    assert_eq!(files[1].path, "b.xml");
}

#[test]
fn validate_references_reports_missing_targets() {
    let file = r_resources::parse::ParsedResourceFile::new(
        "values.xml",
        false,
        vec![
            r_resources::parse::ParsedResource::string("ok", "plain"),
            r_resources::parse::ParsedResource::string("broken", "@string/missing"),
        ],
    );
    let graph = r_resources::builder::ResourceGraphBuilder::from_parsed_files(&vec![file]);
    let errors = r_resources::resolve::validate_references(&graph);
    assert_eq!(errors.len(), 1);
    assert!(errors[0].contains("Unresolved reference"));
    assert!(errors[0].contains("@string/missing"));
}

#[test]
fn validate_references_accepts_existing_targets() {
    let file = r_resources::parse::ParsedResourceFile::new(
        "values.xml",
        false,
        vec![
            r_resources::parse::ParsedResource::string("app_name", "Demo"),
            r_resources::parse::ParsedResource::string("alias", "@string/app_name"),
        ],
    );
    let graph = r_resources::builder::ResourceGraphBuilder::from_parsed_files(&vec![file]);
    let errors = r_resources::resolve::validate_references(&graph);
    assert!(errors.is_empty());
}
