use localdev_proxy::proxy_arg::{invalid_proxy_warning, parse_proxy_arg};

fn pair(a: &str, b: &str) -> Option<(String, String)> {
    Some((a.to_string(), b.to_string()))
}

#[test]
fn bare_port_after_equals_gets_protocol_and_host() {
    assert_eq!(parse_proxy_arg("api=8080", true), pair("/api", "http://localhost:8080"));
}

#[test]
fn bare_port_after_colon_gets_host_only() {
    assert_eq!(parse_proxy_arg("api:8080", false), pair("/api", "localhost:8080"));
}

#[test]
fn equals_is_preferred_over_colon() {
    assert_eq!(
        parse_proxy_arg("api=http://localhost:8080", true),
        pair("/api", "http://localhost:8080")
    );
}

#[test]
fn colon_splits_at_its_first_occurrence() {
    assert_eq!(parse_proxy_arg("/ws:localhost:3000", false), pair("/ws", "localhost:3000"));
}

#[test]
fn port_with_leading_colon_is_expanded() {
    assert_eq!(parse_proxy_arg("api=:9000/v1", true), pair("/api", "http://localhost:9000/v1"));
    assert_eq!(parse_proxy_arg("api::9000", false), pair("/api", "localhost:9000"));
}

#[test]
fn both_sides_are_trimmed() {
    assert_eq!(parse_proxy_arg("  api  =  8080  ", true), pair("/api", "http://localhost:8080"));
    assert_eq!(parse_proxy_arg(" /x = example.org ", true), pair("/x", "example.org"));
}

#[test]
fn empty_sides_are_kept() {
    assert_eq!(parse_proxy_arg("=", true), pair("/", ""));
    assert_eq!(parse_proxy_arg(":", false), pair("/", ""));
}

#[test]
fn argument_without_delimiter_has_no_result() {
    assert_eq!(parse_proxy_arg("api", true), None);
    assert_eq!(parse_proxy_arg("", false), None);
    assert_eq!(parse_proxy_arg("   ", false), None);
}

#[test]
fn warning_names_the_argument() {
    assert_eq!(invalid_proxy_warning("api"), "\u{2757} Invalid proxy: api");
}
