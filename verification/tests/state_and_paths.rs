use r_resources::flat::split_path;
use r_resources::reader::ParserState;
use r_resources::reader::handle_end;
use r_resources::reader::handle_start;
use r_resources::reader::handle_text;

#[test]
fn test_split_path() {
    let (mods, leaf) = split_path("auth/errors/invalid_credentials");
    assert_eq!(mods, "auth::errors");
    assert_eq!(leaf, "invalid_credentials");
    let (mods, leaf) = split_path("version");
    assert_eq!(mods, "");
    assert_eq!(leaf, "version");
    let (mods, leaf) = split_path("");
    assert_eq!(mods, "");
    assert_eq!(leaf, "");
}

#[test]
fn parser_state_tracks_namespaces() {
    let mut state = ParserState::new();
    assert!(state.namespace_stack.is_empty());
    handle_start(
        &mut state,
        &"ns".to_string(),
        &vec![("name".to_string(), "auth".to_string())],
    );
    assert_eq!(state.namespace_stack, vec!["auth"]);
    handle_start(
        &mut state,
        &"string".to_string(),
        &vec![("name".to_string(), "title".to_string())],
    );
    assert_eq!(state.current_name.as_deref(), Some("auth/title"));
    let produced = handle_text(&mut state, &"Login".to_string());
    let resource = produced.expect("string declaration completes");
    assert_eq!(resource.name, "auth/title");
    assert!(handle_end(&mut state, &"string".to_string()).is_none());
    assert!(handle_end(&mut state, &"ns".to_string()).is_none());
    assert!(state.namespace_stack.is_empty());
}

#[test]
fn parser_state_captures_number_type() {
    let mut state = ParserState::new();
    handle_start(
        &mut state,
        &"number".to_string(),
        &vec![
            ("name".to_string(), "tiny".to_string()),
            ("type".to_string(), "i8".to_string()),
        ],
    );
    assert_eq!(state.current_number_type.as_deref(), Some("i8"));
    let resource = handle_text(&mut state, &"7".to_string()).expect("number completes");
    assert_eq!(resource.value.number_explicit_type(), Some("i8"));
    handle_end(&mut state, &"number".to_string());
    assert!(state.current_number_type.is_none());
}

#[test]
fn alias_falls_back_to_longer_suffixes() {
    let paths: Vec<String> = vec!["a/x/title".to_string(), "b/x/title".to_string()];
    let first = r_resources::flat::alias_of(&paths, "a/x/title");
    let second = r_resources::flat::alias_of(&paths, "b/x/title");
    assert_eq!(first, "A_X_TITLE");
    assert_eq!(second, "B_X_TITLE");
    assert_ne!(first, second);
}

#[test]
fn dec_rendering_matches_decimal() {
    let s: String = r_resources::text::dec_chars(9081).iter().collect();
    assert_eq!(s, "9081");
    let s: String = r_resources::text::dec_chars(0).iter().collect();
    assert_eq!(s, "0");
}

#[test]
fn trim_and_case_helpers() {
    let chars = r_resources::text::str_to_chars("  padded\t\n");
    let trimmed: String = r_resources::text::trim_chars(&chars).iter().collect();
    assert_eq!(trimmed, "padded");
    let chars = r_resources::text::str_to_chars("MiXed_09");
    let upper: String = r_resources::text::to_upper_chars(&chars).iter().collect();
    assert_eq!(upper, "MIXED_09");
    let lower: String = r_resources::text::to_lower_chars(&chars).iter().collect();
    assert_eq!(lower, "mixed_09");
}
