use localdev_proxy::proxies::ProxyMap;
use localdev_proxy::reader::{scan_config, SiteScan};
use localdev_proxy::writer::render_site;

fn chars(s: &str) -> Vec<char> {
    s.chars().collect()
}

fn entries(m: &ProxyMap) -> Vec<(String, String)> {
    let mut v = Vec::new();
    let mut i = 0;
    while i < m.len() {
        v.push((m.location(i).clone(), m.target(i).clone()));
        i += 1;
    }
    v
}

fn pairs(all: &[(&str, &str)]) -> Vec<(String, String)> {
    all.iter().map(|(a, b)| (a.to_string(), b.to_string())).collect()
}

#[test]
fn nothing_is_read_from_an_empty_file() {
    let scan = scan_config("");
    assert_eq!(scan, SiteScan::new());
    assert!(scan.names.is_empty());
    assert_eq!(scan.open_location, None);
    assert_eq!(scan.proxies.len(), 0);
    assert_eq!(scan.server_name(), None);
}

#[test]
fn a_plain_site_is_read() {
    let content = "server {\n    listen 80;\n    server_name app.localdev;\n    location /api/ {\n        \
                   proxy_pass http://localhost:8080/;\n    }\n}\n";
    let scan = scan_config(content);
    assert_eq!(scan.names, vec!["app.localdev".to_string()]);
    assert_eq!(scan.server_name().map(|s| s.as_str()), Some("app.localdev"));
    assert_eq!(entries(&scan.proxies), pairs(&[("/api/ ", "http://localhost:8080/")]));
    assert_eq!(scan.open_location, None);
}

#[test]
fn written_site_is_read_back() {
    let mut m = ProxyMap::new();
    m.insert("/".to_string(), "http://localhost:3000".to_string());
    m.insert("/api".to_string(), "http://localhost:8080".to_string());
    let content = render_site("foo.localdev", &m, &None);
    let scan = scan_config(&content);
    assert_eq!(scan.server_name().map(|s| s.as_str()), Some("foo.localdev"));
    assert_eq!(scan.names, vec!["foo.localdev".to_string(), "foo.localdev".to_string()]);
    assert_eq!(
        entries(&scan.proxies),
        pairs(&[("/ ", "http://localhost:3000/"), ("/api/ ", "http://localhost:8080/")])
    );
    let normal: Vec<(String, String)> = entries(&scan.proxies)
        .iter()
        .map(|(l, t)| {
            (
                format!("/{}", l.trim().trim_matches('/')),
                t.trim_end_matches('/').to_string(),
            )
        })
        .collect();
    assert_eq!(
        normal,
        pairs(&[("/", "http://localhost:3000"), ("/api", "http://localhost:8080")])
    );
}

#[test]
fn written_site_with_websocket_is_read_back() {
    let mut m = ProxyMap::new();
    m.insert("/".to_string(), "http://localhost:3000".to_string());
    let ws = Some(("/ws".to_string(), "localhost:3000".to_string()));
    let content = render_site("foo.localdev", &m, &ws);
    let scan = scan_config(&content);
    assert_eq!(scan.server_name().map(|s| s.as_str()), Some("foo.localdev"));
    assert_eq!(
        entries(&scan.proxies),
        pairs(&[("/ ", "http://localhost:3000/"), ("/ws ", "http://ws-backend-foo.localdev")])
    );
}

#[test]
fn the_last_server_name_is_the_name_of_the_file() {
    let scan = scan_config("server_name a.localdev;\nserver_name b.localdev;\n");
    assert_eq!(scan.names, vec!["a.localdev".to_string(), "b.localdev".to_string()]);
    assert_eq!(scan.server_name().map(|s| s.as_str()), Some("b.localdev"));
}

#[test]
fn proxy_pass_outside_a_location_is_passed_over() {
    let scan = scan_config("proxy_pass http://a;\nlocation /x {\n}\nproxy_pass http://b;\n");
    assert_eq!(scan.proxies.len(), 0);
    assert_eq!(scan.open_location, None);
}

#[test]
fn proxy_pass_without_a_target_is_passed_over() {
    let scan = scan_config("location /x {\nproxy_pass\nproxy_pass   \n");
    assert_eq!(scan.proxies.len(), 0);
    assert_eq!(scan.open_location, Some("/x ".to_string()));
}

#[test]
fn a_location_stays_open_until_a_closing_brace() {
    let content = "location /a {\n  proxy_pass one;\n  # }\n  } trailing\n  proxy_pass two;;\n  }  \n\
                   proxy_pass three;\n";
    let scan = scan_config(content);
    assert_eq!(entries(&scan.proxies), pairs(&[("/a ", "two")]));
    assert_eq!(scan.open_location, None);
}

#[test]
fn a_later_target_replaces_an_earlier_one() {
    let content = "location /a {\nproxy_pass one;\nproxy_pass two;\n}\nlocation /b {\nproxy_pass b;\n}\n\
                   location /a {\nproxy_pass three;\n}\n";
    let scan = scan_config(content);
    assert_eq!(entries(&scan.proxies), pairs(&[("/a ", "three"), ("/b ", "b")]));
}

#[test]
fn lines_may_end_with_carriage_return_and_line_feed() {
    let content = "server_name x.localdev;\r\nlocation / {\r\n\tproxy_pass http://h:1;\r\n}\r\n";
    let scan = scan_config(content);
    assert_eq!(scan.names, vec!["x.localdev".to_string()]);
    assert_eq!(entries(&scan.proxies), pairs(&[("/ ", "http://h:1")]));
    assert_eq!(scan.open_location, None);
}

#[test]
fn one_line_at_a_time() {
    let mut scan = SiteScan::new();
    scan.apply_line(&chars("server_name a;"), Some("a".to_string()), None);
    scan.apply_line(&chars("server_name b;"), None, Some("ignored".to_string()));
    assert_eq!(scan.names, vec!["a".to_string()]);
    scan.apply_line(&chars("location /x {"), Some("ignored".to_string()), Some("/x".to_string()));
    assert_eq!(scan.open_location, Some("/x".to_string()));
    scan.apply_line(&chars("location"), None, None);
    assert_eq!(scan.open_location, Some("/x".to_string()));
    scan.apply_line(&chars("proxy_pass t;;; u"), None, None);
    assert_eq!(entries(&scan.proxies), pairs(&[("/x", "t")]));
    scan.apply_line(&chars("other"), Some("n".to_string()), Some("l".to_string()));
    assert_eq!(scan.open_location, Some("/x".to_string()));
    scan.apply_line(&chars("}\t"), None, None);
    assert_eq!(scan.open_location, None);
    assert_eq!(scan.names, vec!["a".to_string()]);
}
