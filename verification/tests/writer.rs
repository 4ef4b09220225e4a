use localdev_proxy::proxies::ProxyMap;
use localdev_proxy::writer::{
    render_site, write_location_header, write_proxy, write_websocket_proxy,
    write_websocket_upstream,
};

fn mapping(entries: &[(&str, &str)]) -> ProxyMap {
    let mut m = ProxyMap::new();
    for (k, v) in entries {
        m.insert(k.to_string(), v.to_string());
    }
    m
}

#[test]
fn location_header_adds_the_slashes() {
    let mut out = String::from("x");
    write_location_header(&mut out, "api", false);
    assert_eq!(out, "x  location /api/ {\n");
    let mut out = String::new();
    write_location_header(&mut out, "/api/", false);
    assert_eq!(out, "  location /api/ {\n");
    let mut out = String::new();
    write_location_header(&mut out, "/", false);
    assert_eq!(out, "  location / {\n");
    let mut out = String::new();
    write_location_header(&mut out, "", false);
    assert_eq!(out, "  location // {\n");
}

#[test]
fn websocket_location_header_gets_no_trailing_slash() {
    let mut out = String::new();
    write_location_header(&mut out, "/ws", true);
    assert_eq!(out, "  location /ws {\n");
    let mut out = String::new();
    write_location_header(&mut out, "ws", true);
    assert_eq!(out, "  location /ws {\n");
}

#[test]
fn proxy_block_ends_the_target_with_a_slash() {
    let mut out = String::new();
    write_proxy(&mut out, "/api", "http://localhost:8080");
    assert_eq!(out, "  location /api/ {\n      proxy_pass http://localhost:8080/;\n  }\n");
    let mut out = String::new();
    write_proxy(&mut out, "/", "http://localhost:3000/");
    assert_eq!(out, "  location / {\n      proxy_pass http://localhost:3000/;\n  }\n");
}

#[test]
fn websocket_block_points_at_the_upstream_group() {
    let mut out = String::new();
    write_websocket_proxy(&mut out, "/ws", "foo.localdev");
    assert_eq!(
        out,
        "  location /ws {\n\
         \x20   proxy_set_header X-Forwarded-For $proxy_add_x_forwarded_for;\n\
         \x20   proxy_set_header Host $host;\n\
         \x20   proxy_pass http://ws-backend-foo.localdev;\n\
         \x20   proxy_http_version 1.1;\n\
         \x20   proxy_set_header Upgrade $http_upgrade;\n\
         \x20   proxy_set_header Connection \"upgrade\";\n\
         \x20 }\n"
    );
}

#[test]
fn upstream_group_has_one_server() {
    let mut out = String::new();
    write_websocket_upstream(&mut out, "localhost:3000", "foo.localdev");
    assert_eq!(out, "upstream ws-backend-foo.localdev {\n  ip_hash;\n  server localhost:3000;\n}\n");
}

#[test]
fn site_without_websocket() {
    let m = mapping(&[("/", "http://localhost:3000"), ("/api", "http://localhost:8080")]);
    let got = render_site("foo.localdev", &m, &None);
    let want = "server {\n\
                \x20 listen 80;\n\
                \x20 listen [::]:80;\n\
                \x20 server_name foo.localdev;\n\
                \x20 location / {\n\
                \x20     proxy_pass http://localhost:3000/;\n\
                \x20 }\n\
                \x20 location /api/ {\n\
                \x20     proxy_pass http://localhost:8080/;\n\
                \x20 }\n\
                }\n\
                server {\n\
                \x20 listen 443 ssl;\n\
                \x20 server_name foo.localdev;\n\
                \x20 ssl_certificate      foo.localdev.pem;\n\
                \x20 ssl_certificate_key  foo.localdev-key.pem;\n\
                \x20 ssl_session_cache    shared:SSL:1m;\n\
                \x20 ssl_session_timeout  5m;\n\
                \x20 ssl_ciphers  HIGH:!aNULL:!MD5;\n\
                \x20 ssl_prefer_server_ciphers  on;\n\
                \x20 location / {\n\
                \x20     proxy_pass http://localhost:3000/;\n\
                \x20 }\n\
                \x20 location /api/ {\n\
                \x20     proxy_pass http://localhost:8080/;\n\
                \x20 }\n\
                }\n";
    assert_eq!(got, want);
}

#[test]
fn site_with_websocket() {
    let m = mapping(&[("/", "http://localhost:3000")]);
    let ws = Some(("/ws".to_string(), "localhost:3000".to_string()));
    let got = render_site("foo.localdev", &m, &ws);
    let locations = "  location / {\n\
                     \x20     proxy_pass http://localhost:3000/;\n\
                     \x20 }\n\
                     \x20 location /ws {\n\
                     \x20   proxy_set_header X-Forwarded-For $proxy_add_x_forwarded_for;\n\
                     \x20   proxy_set_header Host $host;\n\
                     \x20   proxy_pass http://ws-backend-foo.localdev;\n\
                     \x20   proxy_http_version 1.1;\n\
                     \x20   proxy_set_header Upgrade $http_upgrade;\n\
                     \x20   proxy_set_header Connection \"upgrade\";\n\
                     \x20 }\n";
    let want = format!(
        "server {{\n  listen 80;\n  listen [::]:80;\n  server_name foo.localdev;\n{}}}\n\
         server {{\n  listen 443 ssl;\n  server_name foo.localdev;\n\
         \x20 ssl_certificate      foo.localdev.pem;\n\
         \x20 ssl_certificate_key  foo.localdev-key.pem;\n\
         \x20 ssl_session_cache    shared:SSL:1m;\n\
         \x20 ssl_session_timeout  5m;\n\
         \x20 ssl_ciphers  HIGH:!aNULL:!MD5;\n\
         \x20 ssl_prefer_server_ciphers  on;\n{}}}\n\
         upstream ws-backend-foo.localdev {{\n  ip_hash;\n  server localhost:3000;\n}}\n",
        locations, locations
    );
    assert_eq!(got, want);
}

#[test]
fn blocks_follow_the_order_of_the_mapping() {
    let m = mapping(&[("/", "a"), ("/z", "b"), ("/m", "c"), ("/z", "d")]);
    let got = render_site("s", &m, &None);
    let first = got.find("location / {").unwrap();
    let second = got.find("location /z/ {").unwrap();
    let third = got.find("location /m/ {").unwrap();
    assert!(first < second && second < third);
    assert!(got.contains("proxy_pass d/;"));
    assert!(!got.contains("proxy_pass b/;"));
}
