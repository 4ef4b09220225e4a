use localdev_proxy::display::{
    bare_text, certificate_command, row, site_display, site_url, sorted_entries, widest_location,
    SiteDisplay,
};
use localdev_proxy::proxies::ProxyMap;

fn mapping(entries: &[(&str, &str)]) -> ProxyMap {
    let mut m = ProxyMap::new();
    for (k, v) in entries {
        m.insert(k.to_string(), v.to_string());
    }
    m
}

fn pairs(all: &[(&str, &str)]) -> Vec<(String, String)> {
    all.iter().map(|(a, b)| (a.to_string(), b.to_string())).collect()
}

#[test]
fn address_of_a_site() {
    assert_eq!(site_url("foo.localdev"), "https://foo.localdev");
    assert_eq!(site_url(""), "https://");
}

#[test]
fn certificate_command_names_both_files_and_the_site() {
    assert_eq!(
        certificate_command("/etc/nginx", "foo.localdev"),
        "mkcert -cert-file /etc/nginx/foo.localdev.pem -key-file /etc/nginx/foo.localdev-key.pem \
         foo.localdev"
    );
}

#[test]
fn entries_are_sorted_by_location() {
    let m = mapping(&[("/ws", "w"), ("/", "r"), ("/api", "a"), ("/Z", "z")]);
    assert_eq!(sorted_entries(&m), pairs(&[("/", "r"), ("/Z", "z"), ("/api", "a"), ("/ws", "w")]));
    assert_eq!(sorted_entries(&ProxyMap::new()), pairs(&[]));
}

#[test]
fn width_is_the_byte_length_of_the_longest_location() {
    assert_eq!(widest_location(&ProxyMap::new()), 0);
    assert_eq!(widest_location(&mapping(&[("/", "r"), ("/api", "a"), ("/ws", "w")])), 4);
    assert_eq!(widest_location(&mapping(&[("/\u{e9}", "r")])), 3);
}

#[test]
fn bare_text_has_no_whitespace_or_slashes_at_its_ends() {
    let bare = |s: &str| -> String { bare_text(s).iter().collect() };
    assert_eq!(bare(" /api/ "), "api");
    assert_eq!(bare("/"), "");
    assert_eq!(bare("http://localhost:3000/"), "http://localhost:3000");
    assert_eq!(bare("/ a /"), " a ");
    assert_eq!(bare("//a//b//"), "a//b");
}

#[test]
fn row_pads_the_location() {
    assert_eq!(row("/api/ ", "http://h:1/", 6), ("/api   ".to_string(), "http://h:1".to_string()));
    assert_eq!(row("/", "t", 3), ("/   ".to_string(), "t".to_string()));
    assert_eq!(row("/long", "t", 2), ("/long".to_string(), "t".to_string()));
    assert_eq!(row("/ab", "t", 0), ("/ab".to_string(), "t".to_string()));
}

#[test]
fn site_is_shown_with_aligned_rows() {
    let m = mapping(&[("/ws ", "http://ws-backend-foo.localdev"), ("/ ", "http://localhost:3000/"), ("/api/ ", "http://localhost:8080/")]);
    let d = site_display("foo.localdev", &m);
    assert_eq!(
        d,
        SiteDisplay {
            url: "https://foo.localdev".to_string(),
            rows: pairs(&[
                ("/      ", "http://localhost:3000"),
                ("/api   ", "http://localhost:8080"),
                ("/ws    ", "http://ws-backend-foo.localdev"),
            ]),
        }
    );
}

#[test]
fn site_without_locations_has_no_rows() {
    let d = site_display("x", &ProxyMap::new());
    assert_eq!(d, SiteDisplay { url: "https://x".to_string(), rows: vec![] });
}
