use localdev_proxy::proxies::ProxyMap;

#[test]
fn new_mapping_is_empty() {
    let m = ProxyMap::new();
    assert_eq!(m.len(), 0);
    assert!(!m.contains_key("/"));
    assert_eq!(m.get("/"), None);
    assert_eq!(m.position("/"), 0);
}

#[test]
fn insert_appends_new_locations_in_order() {
    let mut m = ProxyMap::new();
    m.insert("/".to_string(), "a".to_string());
    m.insert("/api".to_string(), "b".to_string());
    m.insert("/ws".to_string(), "c".to_string());
    assert_eq!(m.len(), 3);
    assert_eq!(m.location(0), "/");
    assert_eq!(m.target(0), "a");
    assert_eq!(m.location(1), "/api");
    assert_eq!(m.target(1), "b");
    assert_eq!(m.location(2), "/ws");
    assert_eq!(m.target(2), "c");
    assert_eq!(m.position("/api"), 1);
    assert_eq!(m.position("/nope"), 3);
}

#[test]
fn insert_replaces_the_target_of_a_present_location_in_place() {
    let mut m = ProxyMap::new();
    m.insert("/".to_string(), "a".to_string());
    m.insert("/api".to_string(), "b".to_string());
    m.insert("/".to_string(), "z".to_string());
    assert_eq!(m.len(), 2);
    assert_eq!(m.location(0), "/");
    assert_eq!(m.target(0), "z");
    assert_eq!(m.get("/").map(|s| s.as_str()), Some("z"));
    assert_eq!(m.get("/api").map(|s| s.as_str()), Some("b"));
    assert!(m.contains_key("/api"));
    assert!(!m.contains_key("/ap"));
}
