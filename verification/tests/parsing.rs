use r_resources::loader::RawResourceFile;
use r_resources::model::TemplateParamValue;
use r_resources::parse::ResourceKind;
use r_resources::parse::ScalarValue;
use r_resources::reader::parse_single_file;

fn raw(path: &str, contents: &str) -> RawResourceFile {
    RawResourceFile::new(path, contents.to_string(), false)
}

#[test]
fn parse_basic_string() {
    let file = parse_single_file(&raw(
        "values.xml",
        "<resources><string name=\"app_name\">Demo</string></resources>",
    ))
    .unwrap();
    assert_eq!(file.resources.len(), 1);
    assert_eq!(file.resources[0].name, "app_name");
}

#[test]
fn parse_namespaced_string() {
    let file = parse_single_file(&raw(
        "namespaced.xml",
        "\n<resources>\n    <ns name=\"auth\">\n        <string name=\"title\">Login</string>\n    </ns>\n</resources>\n",
    ))
    .unwrap();
    assert_eq!(file.resources.len(), 1);
    assert_eq!(file.resources[0].name, "auth/title");
}

#[test]
fn parse_numbers_and_bools() {
    let file = parse_single_file(&raw(
        "values.xml",
        "\n<resources>\n    <number name=\"max_retries\">3</number>\n    <int name=\"timeout\">5000</int>\n    <float name=\"ratio\">0.75</float>\n    <bool name=\"enabled\">true</bool>\n    <bool name=\"disabled\">false</bool>\n</resources>\n",
    ))
    .unwrap();
    assert_eq!(file.resources.len(), 5);
    let max_retries = file.resources.iter().find(|r| r.name == "max_retries").unwrap();
    assert_eq!(max_retries.kind, ResourceKind::Number);
    assert_eq!(max_retries.value.as_number(), Some("3"));
    let enabled = file.resources.iter().find(|r| r.name == "enabled").unwrap();
    assert_eq!(enabled.kind, ResourceKind::Bool);
    assert_eq!(enabled.value.as_bool(), Some(true));
    let disabled = file.resources.iter().find(|r| r.name == "disabled").unwrap();
    assert_eq!(disabled.value.as_bool(), Some(false));
}

#[test]
fn parse_number_with_explicit_type() {
    let file = parse_single_file(&raw(
        "values.xml",
        "\n<resources>\n    <number name=\"small\" type=\"i8\">127</number>\n    <number name=\"medium\" type=\"i32\">2147483647</number>\n    <number name=\"unsigned\" type=\"u32\">4294967295</number>\n    <number name=\"float32\" type=\"f32\">3.14</number>\n</resources>\n",
    ))
    .unwrap();
    assert_eq!(file.resources.len(), 4);
    let small = file.resources.iter().find(|r| r.name == "small").unwrap();
    assert_eq!(small.value.number_explicit_type(), Some("i8"));
    let float32 = file.resources.iter().find(|r| r.name == "float32").unwrap();
    assert_eq!(float32.value.number_explicit_type(), Some("f32"));
}

#[test]
fn parse_color() {
    let file = parse_single_file(&raw(
        "values.xml",
        "\n<resources>\n    <color name=\"primary\">#FF5722</color>\n    <color name=\"primary_alpha\">#AAFF5722</color>\n</resources>\n",
    ))
    .unwrap();
    assert_eq!(file.resources.len(), 2);
    let primary = file.resources.iter().find(|r| r.name == "primary").unwrap();
    assert_eq!(primary.kind, ResourceKind::Color);
    assert_eq!(primary.value.as_color(), Some("#FF5722"));
    let primary_alpha = file.resources.iter().find(|r| r.name == "primary_alpha").unwrap();
    assert_eq!(primary_alpha.value.as_color(), Some("#AAFF5722"));
}

#[test]
fn parse_template_with_params() {
    let file = parse_single_file(&raw(
        "values.xml",
        "\n<resources>\n    <template name=\"welcome_message\">\n        <string name=\"name\"/>\n        <number name=\"count\"/>\n        Welcome to {name}, you have {count} messages!\n    </template>\n</resources>\n",
    ))
    .unwrap();
    assert_eq!(file.resources.len(), 1);
    let template = file.resources.iter().find(|r| r.name == "welcome_message").unwrap();
    assert_eq!(template.kind, ResourceKind::Template);
    if let ScalarValue::Template { text, params } = &template.value {
        assert_eq!(text.trim(), "Welcome to {name}, you have {count} messages!");
        assert_eq!(params.len(), 2);
        assert_eq!(params[0].name, "name");
        assert!(matches!(params[0].value, TemplateParamValue::String));
        assert_eq!(params[1].name, "count");
        if let TemplateParamValue::Number { explicit_type } = &params[1].value {
            assert_eq!(explicit_type, &None);
        } else {
            panic!("expected a numeric parameter");
        }
    } else {
        panic!("expected a template value");
    }
}

#[test]
fn parse_template_with_explicit_type() {
    let file = parse_single_file(&raw(
        "values.xml",
        "\n<resources>\n    <template name=\"welcome_message\">\n        <string name=\"name\"/>\n        <number name=\"count\" type=\"bigdecimal\"/>\n        Welcome to {name}, you have {count} messages!\n    </template>\n</resources>\n",
    ))
    .unwrap();
    assert_eq!(file.resources.len(), 1);
    let template = file.resources.iter().find(|r| r.name == "welcome_message").unwrap();
    if let ScalarValue::Template { params, .. } = &template.value {
        assert_eq!(params.len(), 2);
        if let TemplateParamValue::Number { explicit_type } = &params[1].value {
            assert_eq!(explicit_type, &Some("bigdecimal".to_string()));
        } else {
            panic!("expected a numeric parameter with an explicit type");
        }
    } else {
        panic!("expected a template value");
    }
}

#[test]
fn malformed_file_reports_position() {
    let result = parse_single_file(&raw("bad.xml", "<resources><string name=\"x\">t</resources"));
    assert!(result.is_err());
    match result {
        Err(r_resources::parse::ParserError::Xml { path, message }) => {
            assert_eq!(path, "bad.xml");
            assert!(message.contains("XML error at position"));
        }
        _ => panic!("expected a parse error"),
    }
}

#[test]
fn parse_url_and_dimension() {
    let file = parse_single_file(&raw(
        "values.xml",
        "<resources><url name=\"home\">https://example.test/</url><dimension name=\"margin\">16dp</dimension></resources>",
    ))
    .unwrap();
    assert_eq!(file.resources.len(), 2);
    assert_eq!(file.resources[0].kind, ResourceKind::Url);
    assert_eq!(file.resources[1].kind, ResourceKind::Dimension);
}

#[test]
fn bool_parse_failure_is_dropped() {
    let file = parse_single_file(&raw(
        "values.xml",
        "<resources><bool name=\"broken\">maybe</bool><bool name=\"ok\">true</bool></resources>",
    ))
    .unwrap();
    assert_eq!(file.resources.len(), 1);
    assert_eq!(file.resources[0].name, "ok");
}

#[test]
fn template_attribute_dialect_parses() {
    let file = parse_single_file(&raw(
        "values.xml",
        "<resources><string name=\"greeting\" template=\"Hello {who}!\"><param name=\"who\" type=\"string\"/></string></resources>",
    ))
    .unwrap();
    assert_eq!(file.resources.len(), 1);
    let template = &file.resources[0];
    assert_eq!(template.kind, ResourceKind::Template);
    if let ScalarValue::Template { text, params } = &template.value {
        assert_eq!(text, "Hello {who}!");
        assert_eq!(params.len(), 1);
        assert_eq!(params[0].name, "who");
    } else {
        panic!("expected a template value");
    }
}

#[test]
fn profile_preprocessing_filters_by_profile() {
    let xml = "\n<resources>\n    <string name=\"visible\" profile=\"release\">prod</string>\n    <string name=\"hidden\" profile=\"debug\">dbg</string>\n    <string name=\"always\">both</string>\n</resources>\n";
    let release = r_resources::profile::preprocess_xml(xml, "release");
    assert!(release.contains("visible"));
    assert!(!release.contains("hidden"));
    assert!(release.contains("always"));
    let debug = r_resources::profile::preprocess_xml(xml, "debug");
    assert!(!debug.contains("visible"));
    assert!(debug.contains("hidden"));
    assert!(debug.contains("always"));
}

#[test]
fn profile_preprocessing_elides_whole_subtree() {
    let xml = "<resources><ns name=\"secret\" profile=\"release\"><string name=\"inner\">x</string></ns><string name=\"kept\">y</string></resources>";
    let debug = r_resources::profile::preprocess_xml(xml, "debug");
    assert!(!debug.contains("inner"));
    assert!(debug.contains("kept"));
}
