use localdev_proxy::proxies::ProxyMap;
use localdev_proxy::reader::scan_config;
use localdev_proxy::sites::{find_server_name, insert_name, SiteTable};

fn names(all: &[&str]) -> Vec<String> {
    all.iter().map(|s| s.to_string()).collect()
}

fn site_file(name: &str, location: &str, target: &str) -> String {
    format!("server {{\n  server_name {};\n  location {} {{\n    proxy_pass {};\n  }}\n}}\n", name, location, target)
}

#[test]
fn find_takes_the_literal_name_or_the_name_with_the_local_domain() {
    let all = names(&["a.localdev", "b.localdev", "c"]);
    assert_eq!(find_server_name("b", &all), Some("b.localdev".to_string()));
    assert_eq!(find_server_name("b.localdev", &all), Some("b.localdev".to_string()));
    assert_eq!(find_server_name("c", &all), Some("c".to_string()));
    assert_eq!(find_server_name("d", &all), None);
    assert_eq!(find_server_name("", &all), None);
    assert_eq!(find_server_name("a.local", &all), None);
    assert_eq!(find_server_name("x", &[]), None);
}

#[test]
fn find_tries_the_literal_name_before_the_name_with_the_local_domain() {
    let all = names(&["foo.localdev", "foo"]);
    assert_eq!(find_server_name("foo", &all), Some("foo".to_string()));
    let all = names(&["x.localdev", "x"]);
    assert_eq!(find_server_name("x", &all), Some("x".to_string()));
    let all = names(&["x", "x.localdev"]);
    assert_eq!(find_server_name("x", &all), Some("x".to_string()));
    let all = names(&["x.localdev.localdev", "y", "x.localdev"]);
    assert_eq!(find_server_name("x.localdev", &all), Some("x.localdev".to_string()));
    assert_eq!(find_server_name("x", &all), Some("x.localdev".to_string()));
    let all = names(&[".localdev"]);
    assert_eq!(find_server_name("", &all), Some(".localdev".to_string()));
}

#[test]
fn names_are_inserted_in_order_and_once() {
    let mut list: Vec<String> = Vec::new();
    for n in ["m", "b", "z", "b", "a", "m", "ab", ""] {
        insert_name(&mut list, &n.to_string());
    }
    assert_eq!(list, names(&["", "a", "ab", "b", "m", "z"]));
}

#[test]
fn empty_table() {
    let t = SiteTable::new();
    assert_eq!(t.len(), 0);
    assert!(t.listing().is_empty());
    assert!(t.get("a").is_none());
    assert_eq!(t.position("a"), 0);
}

#[test]
fn files_are_taken_in() {
    let mut t = SiteTable::new();
    t.read_file("d/b", &site_file("b.localdev", "/", "http://localhost:1"));
    t.read_file("d/a", &site_file("a.localdev", "/x", "http://localhost:2"));
    t.read_file("d/other", &site_file("example.org", "/", "http://localhost:3"));
    t.read_file("d/empty", "# nothing\n");
    assert_eq!(t.len(), 3);
    assert_eq!(t.listing(), names(&["a.localdev", "b.localdev"]));
    let b = t.get("b.localdev").unwrap();
    assert_eq!(b.name, "b.localdev");
    assert_eq!(b.path, "d/b");
    assert_eq!(b.proxies.get("/ ").map(|s| s.as_str()), Some("http://localhost:1"));
    assert_eq!(t.site(0).name, "b.localdev");
    assert_eq!(t.site(1).name, "a.localdev");
    assert_eq!(t.site(2).name, "example.org");
    assert_eq!(t.position("a.localdev"), 1);
    assert!(t.get("c.localdev").is_none());
}

#[test]
fn a_later_file_takes_the_place_of_an_earlier_one() {
    let mut t = SiteTable::new();
    t.read_file("d/one", &site_file("a.localdev", "/", "one"));
    t.read_file("d/b", &site_file("b.localdev", "/", "b"));
    t.read_file("d/two", &site_file("a.localdev", "/two", "two"));
    assert_eq!(t.len(), 2);
    let a = t.get("a.localdev").unwrap();
    assert_eq!(a.path, "d/two");
    assert_eq!(a.proxies.len(), 1);
    assert_eq!(a.proxies.get("/two ").map(|s| s.as_str()), Some("two"));
    assert_eq!(t.site(0).name, "a.localdev");
    assert_eq!(t.listing(), names(&["a.localdev", "b.localdev"]));
}

#[test]
fn a_file_with_two_names_gives_its_mapping_to_the_last() {
    let mut t = SiteTable::new();
    t.read_file(
        "d/f",
        "server_name one.localdev;\nserver_name two.localdev;\nlocation / {\nproxy_pass t;\n}\n",
    );
    assert_eq!(t.listing(), names(&["one.localdev", "two.localdev"]));
    assert_eq!(t.get("one.localdev").unwrap().path, "d/f");
    assert_eq!(t.get("one.localdev").unwrap().proxies.len(), 0);
    assert_eq!(t.get("two.localdev").unwrap().path, "d/f");
    assert_eq!(t.get("two.localdev").unwrap().proxies.len(), 1);
}

#[test]
fn paths_and_mappings_are_recorded_one_by_one() {
    let mut t = SiteTable::new();
    t.record_path("a", "first");
    t.record_path("b", "second");
    t.record_path("a", "third");
    assert_eq!(t.len(), 2);
    assert_eq!(t.get("a").unwrap().path, "third");
    let mut m = ProxyMap::new();
    m.insert("/".to_string(), "t".to_string());
    t.set_proxies("b", m.clone());
    t.set_proxies("c", m.clone());
    assert_eq!(t.len(), 3);
    assert_eq!(t.get("b").unwrap().proxies, m);
    assert_eq!(t.get("b").unwrap().path, "second");
    assert_eq!(t.get("c").unwrap().path, "");
    assert_eq!(t.get("a").unwrap().proxies.len(), 0);
    t.absorb("fourth", scan_config("server_name a;\nlocation /q {\nproxy_pass r;\n}\n"));
    assert_eq!(t.get("a").unwrap().path, "fourth");
    assert_eq!(t.get("a").unwrap().proxies.get("/q ").map(|s| s.as_str()), Some("r"));
    assert!(t.listing().is_empty());
}
