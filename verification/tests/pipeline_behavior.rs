use r_resources::analysis::ValidationOptions;
use r_resources::loader::BuildPlan;
use r_resources::model::InterpolationPart;
use r_resources::model::ResourceValue;
use r_resources::pipeline::BuildError;
use r_resources::pipeline::build_with_plan;
use r_resources::pipeline::build_with_plan_and_options;

fn listing(files: &[(&str, &str)]) -> Vec<(String, String)> {
    files.iter().map(|(p, c)| (p.to_string(), c.to_string())).collect()
}

#[test]
fn build_with_plan_runs_pipeline_and_generation() {
    let plan = BuildPlan::new("res", None, "debug");
    let main = listing(&[(
        "values.xml",
        "<resources>\n  <string name=\"title\">Hello</string>\n  <number name=\"max_retries\">3</number>\n  <bool name=\"enabled\">true</bool>\n</resources>",
    )]);
    let artifacts = build_with_plan(&plan, Some(main), None).expect("build succeeds");
    assert!(artifacts.rust.contains("pub struct R"));
    assert!(artifacts.rust.contains("impl R"));
    assert!(artifacts.rust.contains("pub mod r {"));
    assert!(artifacts.rust.contains("pub const TITLE: &str"));
    assert!(artifacts.rust.contains("\"Hello\""));
    assert!(artifacts.rust.contains("pub const MAX_RETRIES: i64"));
    assert!(artifacts.rust.contains("pub const ENABLED: bool"));
    assert!(artifacts.rust.contains("= true"));
}

#[test]
fn build_with_duplicates_generates_warnings() {
    let plan = BuildPlan::new("res", None, "debug");
    let main = listing(&[
        ("values1.xml", "<resources><string name=\"title\">First</string></resources>"),
        ("values2.xml", "<resources><string name=\"title\">Second</string></resources>"),
    ]);
    let artifacts = build_with_plan(&plan, Some(main), None).expect("build succeeds");
    assert!(!artifacts.warnings.is_empty());
    assert!(artifacts.warnings.iter().any(|w| w.contains("Duplicate")));
    assert!(artifacts.rust.contains("pub const TITLE"));
    assert!(artifacts.rust.contains("#[deprecated"));
    assert!(artifacts.rust.contains("Duplicate resource key 'title'"));
    assert!(artifacts.rust.contains("\"First\""));
    assert!(!artifacts.rust.contains("TITLE_VALUES1"));
    assert!(!artifacts.rust.contains("TITLE_VALUES2"));
}

#[test]
fn build_with_duplicates_as_errors_fails() {
    let plan = BuildPlan::new("res", None, "debug");
    let main = listing(&[
        ("values1.xml", "<resources><string name=\"title\">First</string></resources>"),
        ("values2.xml", "<resources><string name=\"title\">Second</string></resources>"),
    ]);
    let options = ValidationOptions { treat_duplicates_as_errors: true };
    let result = build_with_plan_and_options(&plan, Some(main), None, options);
    assert!(result.is_err());
    if let Err(BuildError::Analysis(errors)) = result {
        assert!(!errors.is_empty());
        assert!(errors.iter().any(|e| e.message.contains("Duplicate")));
    } else {
        panic!("expected an analysis error");
    }
}

#[test]
fn building_twice_yields_identical_output() {
    let plan = BuildPlan::new("res", None, "release");
    let files = listing(&[
        (
            "a.xml",
            "<resources><ns name=\"auth\"><string name=\"title\">Login</string></ns><number name=\"n\">7</number></resources>",
        ),
        (
            "b.xml",
            "<resources><string name=\"welcome\" profile=\"release\">Hi</string><color name=\"c\">#FF0000</color></resources>",
        ),
    ]);
    let first = build_with_plan(&plan, Some(files.clone()), None).expect("build succeeds");
    let second = build_with_plan(&plan, Some(files), None).expect("build succeeds");
    assert_eq!(first.rust, second.rust);
    assert_eq!(first.warnings, second.warnings);
}

#[test]
fn missing_directory_fails_strictly() {
    let plan = BuildPlan::new("res", None, "debug");
    let result = build_with_plan(&plan, None, None);
    assert!(result.is_err());
}

#[test]
fn no_declaration_files_fails_strictly() {
    let plan = BuildPlan::new("res", None, "debug");
    let result = build_with_plan(&plan, Some(listing(&[("notes.txt", "hello")])), None);
    assert!(result.is_err());
}

#[test]
fn pure_reference_resolves_in_generated_output() {
    let plan = BuildPlan::new("res", None, "debug");
    let main = listing(&[(
        "values.xml",
        "<resources><string name=\"app_name\">Demo</string><string name=\"alias\">@string/app_name</string></resources>",
    )]);
    let artifacts = build_with_plan(&plan, Some(main), None).expect("build succeeds");
    assert!(artifacts.rust.contains("pub const ALIAS: &str = \"Demo\";"));
}

#[test]
fn interpolated_string_resolves_at_build_time() {
    let plan = BuildPlan::new("res", None, "debug");
    let main = listing(&[(
        "values.xml",
        "<resources><string name=\"app_name\">Demo</string><string name=\"welcome\">Welcome to @string/app_name!</string></resources>",
    )]);
    let artifacts = build_with_plan(&plan, Some(main), None).expect("build succeeds");
    assert!(artifacts.rust.contains("pub const WELCOME: &str = \"Welcome to Demo!\";"));
}

#[test]
fn circular_reference_terminates_with_placeholder() {
    let plan = BuildPlan::new("res", None, "debug");
    let main = listing(&[(
        "values.xml",
        "<resources><string name=\"a\">Go @string/b now</string><string name=\"b\">Back @string/a again</string></resources>",
    )]);
    let artifacts = build_with_plan(&plan, Some(main), None).expect("build terminates");
    assert!(artifacts.rust.contains("@a") || artifacts.rust.contains("@b"));
}

#[test]
fn string_value_classification() {
    let pure = ResourceValue::parse_string_value("@string/app_name");
    match pure {
        ResourceValue::Reference { resource_type, key } => {
            assert_eq!(resource_type, "string");
            assert_eq!(key, "app_name");
        }
        _ => panic!("expected a pure reference"),
    }
    let interpolated = ResourceValue::parse_string_value("Welcome @string/app_name!");
    match interpolated {
        ResourceValue::InterpolatedString(parts) => {
            assert_eq!(parts.len(), 3);
            assert!(matches!(&parts[0], InterpolationPart::Text(t) if t == "Welcome "));
            assert!(matches!(
                &parts[1],
                InterpolationPart::Reference { resource_type, key }
                    if resource_type == "string" && key == "app_name"
            ));
            assert!(matches!(&parts[2], InterpolationPart::Text(t) if t == "!"));
        }
        _ => panic!("expected an interpolated string"),
    }
    let plain = ResourceValue::parse_string_value("just text");
    assert!(matches!(plain, ResourceValue::String(s) if s == "just text"));
}

#[test]
fn malformed_reference_stays_literal() {
    let value = ResourceValue::parse_string_value("mail me at user@example dot com");
    match value {
        ResourceValue::InterpolatedString(parts) => {
            assert!(parts.iter().all(|p| matches!(p, InterpolationPart::Text(_))));
        }
        _ => panic!("expected an interpolated string of literal segments"),
    }
}

#[test]
fn template_with_named_params_emits_callable() {
    let plan = BuildPlan::new("res", None, "debug");
    let main = listing(&[(
        "values.xml",
        "<resources><template name=\"welcome\"><string name=\"name\"/><number name=\"count\"/>Hello {name}, you have {count} messages!</template></resources>",
    )]);
    let artifacts = build_with_plan(&plan, Some(main), None).expect("build succeeds");
    assert!(artifacts.rust.contains("pub fn welcome(name: &str, count: i64) -> String"));
    assert!(artifacts
        .rust
        .contains("format!(\"Hello {}, you have {} messages!\", name, count)"));
    assert_eq!(
        format!("Hello {}, you have {} messages!", "Alice", 5),
        "Hello Alice, you have 5 messages!"
    );
}

#[test]
fn flat_aliases_are_minimal_and_unique() {
    let paths: Vec<String> = vec![
        "auth/title".to_string(),
        "settings/title".to_string(),
        "version".to_string(),
    ];
    let aliases = r_resources::flat::compute_minimal_aliases(&paths);
    assert_eq!(aliases.len(), 3);
    assert_eq!(aliases[0].0, "auth/title");
    assert_eq!(aliases[0].1, "AUTH_TITLE");
    assert_eq!(aliases[1].1, "SETTINGS_TITLE");
    assert_eq!(aliases[2].1, "VERSION");
    let mut names: Vec<&String> = aliases.iter().map(|a| &a.1).collect();
    names.sort();
    names.dedup();
    assert_eq!(names.len(), 3);
}

#[test]
fn unique_leaf_gets_bare_alias() {
    let paths: Vec<String> = vec!["deep/ns/unique_name".to_string(), "other/thing".to_string()];
    let alias = r_resources::flat::alias_of(&paths, "deep/ns/unique_name");
    assert_eq!(alias, "UNIQUE_NAME");
}

#[test]
fn generated_output_contains_flat_surface() {
    let plan = BuildPlan::new("res", None, "debug");
    let main = listing(&[(
        "values.xml",
        "<resources><ns name=\"auth\"><string name=\"title\">Login</string></ns></resources>",
    )]);
    let artifacts = build_with_plan(&plan, Some(main), None).expect("build succeeds");
    assert!(artifacts.rust.contains("pub mod flat {"));
    assert!(artifacts.rust.contains("pub use super::r::auth::TITLE as TITLE;"));
}

#[test]
fn typed_range_error_halts_build() {
    let plan = BuildPlan::new("res", None, "debug");
    let overflowing = listing(&[(
        "values.xml",
        "<resources><number name=\"tiny\" type=\"i8\">128</number></resources>",
    )]);
    let result = build_with_plan(&plan, Some(overflowing), None);
    match result {
        Err(BuildError::Analysis(errors)) => {
            assert!(errors.iter().any(|e| e.message.contains("does not fit in i8")));
        }
        _ => panic!("expected the build to halt on the range error"),
    }
    let fitting = listing(&[(
        "values.xml",
        "<resources><number name=\"tiny\" type=\"i8\">127</number></resources>",
    )]);
    let artifacts = build_with_plan(&plan, Some(fitting), None).expect("build succeeds");
    assert!(artifacts.rust.contains("pub const TINY: i8 = 127;"));
}

#[test]
fn reference_keys_run_through_unicode_alphanumerics() {
    let value = ResourceValue::parse_string_value("see @string/caf\u{e9}_menu!");
    match value {
        ResourceValue::InterpolatedString(parts) => {
            assert!(matches!(
                &parts[1],
                InterpolationPart::Reference { resource_type, key }
                    if resource_type == "string" && key == "caf\u{e9}_menu"
            ));
            assert!(matches!(&parts[2], InterpolationPart::Text(t) if t == "!"));
        }
        _ => panic!("expected an interpolated string"),
    }
}
