use r_resources::key::ResourceKey;

#[test]
fn resource_key_new() {
    let key = ResourceKey::new(vec!["ns1".to_string(), "ns2".to_string()], "name");
    assert_eq!(key.namespace, vec!["ns1", "ns2"]);
    assert_eq!(key.name, "name");
}

#[test]
fn resource_key_new_with_string() {
    let key = ResourceKey::new(vec![], "name");
    assert_eq!(key.namespace, Vec::<String>::new());
    assert_eq!(key.name, "name");
}

#[test]
fn resource_key_from_path_simple() {
    let key = ResourceKey::from_path("name");
    assert_eq!(key.namespace, Vec::<String>::new());
    assert_eq!(key.name, "name");
}

#[test]
fn resource_key_from_path_with_namespace() {
    let key = ResourceKey::from_path("ns1/ns2/name");
    assert_eq!(key.namespace, vec!["ns1", "ns2"]);
    assert_eq!(key.name, "name");
}

#[test]
fn resource_key_from_path_single_namespace() {
    let key = ResourceKey::from_path("ns/name");
    assert_eq!(key.namespace, vec!["ns"]);
    assert_eq!(key.name, "name");
}

#[test]
fn resource_key_from_path_with_empty_parts() {
    let key = ResourceKey::from_path("//ns1///name//");
    assert_eq!(key.namespace, vec!["ns1"]);
    assert_eq!(key.name, "name");
}

#[test]
fn resource_key_from_path_empty() {
    let key = ResourceKey::from_path("");
    assert_eq!(key.namespace, Vec::<String>::new());
    assert_eq!(key.name, "");
}

#[test]
fn resource_key_from_path_only_slashes() {
    let key = ResourceKey::from_path("///");
    assert_eq!(key.namespace, Vec::<String>::new());
    assert_eq!(key.name, "");
}

#[test]
fn resource_key_full_name_no_namespace() {
    let key = ResourceKey::new(vec![], "name");
    assert_eq!(key.full_name(), "name");
}

#[test]
fn resource_key_full_name_with_namespace() {
    let key = ResourceKey::new(vec!["ns1".to_string(), "ns2".to_string()], "name");
    assert_eq!(key.full_name(), "ns1/ns2/name");
}

#[test]
fn resource_key_full_name_single_namespace() {
    let key = ResourceKey::new(vec!["ns".to_string()], "name");
    assert_eq!(key.full_name(), "ns/name");
}

#[test]
fn resource_key_equality() {
    let key1 = ResourceKey::new(vec!["ns".to_string()], "name");
    let key2 = ResourceKey::new(vec!["ns".to_string()], "name");
    assert_eq!(key1, key2);
}

#[test]
fn resource_key_inequality() {
    let key1 = ResourceKey::new(vec!["ns1".to_string()], "name");
    let key2 = ResourceKey::new(vec!["ns2".to_string()], "name");
    assert_ne!(key1, key2);
}

#[test]
fn resource_key_ordering() {
    let key1 = ResourceKey::new(vec![], "a");
    let key2 = ResourceKey::new(vec![], "b");
    assert!(key1 < key2);
}

#[test]
fn key_equality_across_construction_paths() {
    let from_path = ResourceKey::from_path("auth/errors/title");
    let direct = ResourceKey::new(vec!["auth".to_string(), "errors".to_string()], "title");
    assert_eq!(from_path, direct);
    assert_eq!(from_path.full_name(), direct.full_name());
}
