use localdev_proxy::cli::{Args, Commands, Shell};
use localdev_proxy::dispatch::{
    local_site_name, plan, plan_add, plan_find, plan_list, plan_open, plan_remove, Action,
};
use localdev_proxy::display::SiteDisplay;
use localdev_proxy::resolver::resolve_include_dir;
use localdev_proxy::proxies::ProxyMap;
use localdev_proxy::sites::SiteTable;
use localdev_proxy::writer::render_site;

fn say(s: &str) -> Action {
    Action::Say(s.to_string())
}

fn pairs(all: &[(&str, &str)]) -> Vec<(String, String)> {
    all.iter().map(|(a, b)| (a.to_string(), b.to_string())).collect()
}

fn site_file(name: &str, location: &str, target: &str) -> String {
    format!("server {{\n  server_name {};\n  location {} {{\n    proxy_pass {};\n  }}\n}}\n", name, location, target)
}

fn two_sites() -> SiteTable {
    let mut t = SiteTable::new();
    t.read_file("servers/b.conf", &site_file("b.localdev", "/", "http://localhost:2/"));
    t.read_file("servers/a.conf", &site_file("a.localdev", "/api/", "http://localhost:1/"));
    t
}

fn opening(name: &str) -> Vec<Action> {
    vec![
        say(""),
        say(&format!(" \u{26a1} Opening https://{}", name)),
        Action::OpenBrowser { url: format!("https://{}", name) },
    ]
}

fn not_found(name: &str) -> Vec<Action> {
    vec![
        say(&format!("\u{2757} Server name not found: {}", name)),
        say("\u{2757}  Use the add command to create it."),
    ]
}

fn shown_a() -> Action {
    Action::Show(SiteDisplay {
        url: "https://a.localdev".to_string(),
        rows: pairs(&[("/api   ", "http://localhost:1")]),
    })
}

fn shown_b() -> Action {
    Action::Show(SiteDisplay {
        url: "https://b.localdev".to_string(),
        rows: pairs(&[("/  ", "http://localhost:2")]),
    })
}

fn count(plan: &[Action], pick: fn(&Action) -> bool) -> usize {
    plan.iter().filter(|a| pick(a)).count()
}

#[test]
fn list_shows_every_site_in_order() {
    assert_eq!(plan_list(&two_sites()), vec![shown_a(), shown_b()]);
}

#[test]
fn list_of_nothing_says_so() {
    assert_eq!(plan_list(&SiteTable::new()), vec![say("No local server found.")]);
}

#[test]
fn open_opens_the_site_that_answers() {
    assert_eq!(plan_open(&two_sites(), "a"), opening("a.localdev"));
    assert_eq!(plan_open(&two_sites(), "b.localdev"), opening("b.localdev"));
    assert_eq!(plan_open(&two_sites(), "c"), not_found("c"));
}

#[test]
fn find_shows_the_site_and_opens_it_if_asked() {
    assert_eq!(plan_find(&two_sites(), "b", false), vec![shown_b()]);
    let mut want = opening("a.localdev");
    want.push(shown_a());
    assert_eq!(plan_find(&two_sites(), "a", true), want);
    assert_eq!(plan_find(&two_sites(), "zz", true), not_found("zz"));
}

#[test]
fn remove_removes_the_file_and_reloads() {
    assert_eq!(
        plan_remove(&two_sites(), "a"),
        vec![
            say("Removing current configuration for: a.localdev"),
            Action::RemoveFile { path: "servers/a.conf".to_string() },
            Action::Reload,
        ]
    );
}

#[test]
fn remove_of_a_site_that_is_not_there_does_nothing() {
    let plan = plan_remove(&two_sites(), "c");
    assert_eq!(plan, vec![say("Server name not found: c")]);
    assert_eq!(count(&plan, |a| matches!(a, Action::RemoveFile { .. })), 0);
    assert_eq!(count(&plan, |a| matches!(a, Action::Reload)), 0);
    assert_eq!(plan_remove(&SiteTable::new(), "a"), vec![say("Server name not found: a")]);
}

#[test]
fn add_of_a_site_that_is_there_does_nothing_without_force() {
    let plan = plan_add(
        &two_sites(),
        "a",
        "http://localhost:3000",
        "/ws:localhost:3000",
        &vec!["api=8080".to_string()],
        false,
        true,
        true,
    );
    assert_eq!(
        plan,
        vec![
            say("\u{2757} This server already exists: a.localdev"),
            say("\u{2757}  use --force to reconfigure"),
        ]
    );
    assert_eq!(count(&plan, |a| matches!(a, Action::WriteConfig { .. })), 0);
    assert_eq!(count(&plan, |a| matches!(a, Action::Reload)), 0);
    assert_eq!(count(&plan, |a| matches!(a, Action::IssueCertificate { .. })), 0);
}

#[test]
fn add_with_force_writes_the_file_again() {
    let plan = plan_add(&two_sites(), "a", "http://localhost:9", "", &vec![], true, false, false);
    assert_eq!(plan.len(), 4);
    assert_eq!(plan[0], Action::IssueCertificate { name: "a.localdev".to_string() });
    match &plan[1] {
        Action::WriteConfig { file_name, content } => {
            assert_eq!(file_name, "a.localdev.conf");
            assert!(content.contains("  server_name a.localdev;\n"));
            assert!(content.contains("  location / {\n      proxy_pass http://localhost:9/;\n  }\n"));
            assert!(!content.contains("upstream"));
        },
        other => panic!("{:?}", other),
    }
    assert_eq!(plan[2], Action::Reload);
    assert_eq!(
        plan[3],
        Action::Show(SiteDisplay {
            url: "https://a.localdev".to_string(),
            rows: pairs(&[("/ ", "http://localhost:9")]),
        })
    );
}

#[test]
fn add_of_a_new_site_end_to_end() {
    assert_eq!(resolve_include_dir("http {\n  include servers/*;\n}\n"), Ok("servers".to_string()));
    let table = SiteTable::new();
    let args = Args {
        nginx_path: None,
        command: Some(Commands::Add {
            server_name: "foo".to_string(),
            default_target: "http://localhost:3000".to_string(),
            ws: "/ws:localhost:3000".to_string(),
            proxy: vec![],
            force: false,
            open: false,
        }),
        verbose: 0,
    };
    let got = plan(&args, &table);
    let locations = "  location / {\n\
                     \x20     proxy_pass http://localhost:3000/;\n\
                     \x20 }\n\
                     \x20 location /ws {\n\
                     \x20   proxy_set_header X-Forwarded-For $proxy_add_x_forwarded_for;\n\
                     \x20   proxy_set_header Host $host;\n\
                     \x20   proxy_pass http://ws-backend-foo.localdev;\n\
                     \x20   proxy_http_version 1.1;\n\
                     \x20   proxy_set_header Upgrade $http_upgrade;\n\
                     \x20   proxy_set_header Connection \"upgrade\";\n\
                     \x20 }\n";
    let content = format!(
        "server {{\n  listen 80;\n  listen [::]:80;\n  server_name foo.localdev;\n{}}}\n\
         server {{\n  listen 443 ssl;\n  server_name foo.localdev;\n\
         \x20 ssl_certificate      foo.localdev.pem;\n\
         \x20 ssl_certificate_key  foo.localdev-key.pem;\n\
         \x20 ssl_session_cache    shared:SSL:1m;\n\
         \x20 ssl_session_timeout  5m;\n\
         \x20 ssl_ciphers  HIGH:!aNULL:!MD5;\n\
         \x20 ssl_prefer_server_ciphers  on;\n{}}}\n\
         upstream ws-backend-foo.localdev {{\n  ip_hash;\n  server localhost:3000;\n}}\n",
        locations, locations
    );
    let want = vec![
        say("Server name not found: foo"),
        Action::IssueCertificate { name: "foo.localdev".to_string() },
        Action::WriteConfig { file_name: "foo.localdev.conf".to_string(), content: content.clone() },
        Action::Reload,
        Action::Show(SiteDisplay {
            url: "https://foo.localdev".to_string(),
            rows: pairs(&[("/   ", "http://localhost:3000"), ("/ws ", "ws-backend-foo.localdev")]),
        }),
    ];
    assert_eq!(got, want);
    assert_eq!(count(&got, |a| matches!(a, Action::IssueCertificate { .. })), 1);
    assert_eq!(count(&got, |a| matches!(a, Action::Reload)), 1);
    assert_eq!(count(&got, |a| matches!(a, Action::WriteConfig { .. })), 1);

    let mut after = SiteTable::new();
    after.read_file("servers/foo.localdev.conf", &content);
    assert_eq!(after.listing(), vec!["foo.localdev".to_string()]);
    let site = after.get("foo.localdev").unwrap();
    assert_eq!(site.proxies.get("/ ").map(|s| s.as_str()), Some("http://localhost:3000/"));
    assert_eq!(site.proxies.get("/ws ").map(|s| s.as_str()), Some("http://ws-backend-foo.localdev"));
}

#[test]
fn add_with_everything() {
    let proxy = vec!["api=8080".to_string(), "broken".to_string(), "/=:5000".to_string()];
    let got = plan_add(&SiteTable::new(), "bar.localdev", "http://localhost:3000", "nope", &proxy, false, true, true);
    assert_eq!(got.len(), 16);
    assert_eq!(got[0], say("Server name not found: bar.localdev"));
    assert_eq!(got[1], say("\u{2757} Invalid proxy: nope"));
    assert_eq!(got[2], say("No current configuration for server: bar.localdev"));
    assert_eq!(got[3], Action::IssueCertificate { name: "bar.localdev".to_string() });
    assert_eq!(got[4], say("\u{2757} Invalid proxy: broken"));
    assert_eq!(got[5], say("Location: /"));
    assert_eq!(got[6], say("Target: http://localhost:5000"));
    assert_eq!(got[7], say("Location: /api"));
    assert_eq!(got[8], say("Target: http://localhost:8080"));
    match &got[9] {
        Action::WriteConfig { file_name, content } => {
            assert_eq!(file_name, "bar.localdev.conf");
            assert!(content.contains("proxy_pass http://localhost:5000/;"));
            assert!(content.contains("  location /api/ {\n      proxy_pass http://localhost:8080/;\n"));
            assert!(!content.contains("ws-backend"));
        },
        other => panic!("{:?}", other),
    }
    assert_eq!(got[10], say(">> Wrote new configuration for server: bar.localdev"));
    assert_eq!(got[11], Action::Reload);
    assert_eq!(
        got[12],
        Action::Show(SiteDisplay {
            url: "https://bar.localdev".to_string(),
            rows: pairs(&[("/    ", "http://localhost:5000"), ("/api ", "http://localhost:8080")]),
        })
    );
    assert_eq!(got[13..].to_vec(), opening("bar.localdev"));
}

#[test]
fn name_of_a_new_site_gets_the_local_domain_once() {
    assert_eq!(local_site_name("foo"), "foo.localdev");
    assert_eq!(local_site_name("foo.localdev"), "foo.localdev");
    assert_eq!(local_site_name(""), ".localdev");
    assert_eq!(local_site_name("foo.localdev.org"), "foo.localdev.org.localdev");
}

#[test]
fn commands_are_dispatched() {
    let t = two_sites();
    let run = |command: Option<Commands>| -> Vec<Action> {
        plan(&Args { nginx_path: None, command: command, verbose: 0 }, &t)
    };
    assert_eq!(run(None), vec![shown_a(), shown_b()]);
    assert_eq!(run(Some(Commands::List)), vec![shown_a(), shown_b()]);
    assert_eq!(run(Some(Commands::Reload)), vec![Action::Reload]);
    assert_eq!(
        run(Some(Commands::Completion { shell: Shell::Fish })),
        vec![Action::Complete { shell: Shell::Fish }]
    );
    assert_eq!(
        run(Some(Commands::Open { server_name: "b".to_string() })),
        opening("b.localdev")
    );
    assert_eq!(
        run(Some(Commands::Find { server_name: "b".to_string(), open: false })),
        vec![shown_b()]
    );
    assert_eq!(
        run(Some(Commands::Remove { server_name: "nope".to_string() })),
        vec![say("Server name not found: nope")]
    );
}

#[test]
fn written_site_is_listed_once_with_its_two_locations() {
    let mut m = ProxyMap::new();
    m.insert("/".to_string(), "http://localhost:3000".to_string());
    m.insert("/api".to_string(), "http://localhost:8080".to_string());
    let content = render_site("foo.localdev", &m, &None);
    assert_eq!(content.matches("server_name foo.localdev;").count(), 2);
    let mut table = SiteTable::new();
    table.read_file("servers/foo.localdev.conf", &content);
    assert_eq!(table.len(), 1);
    assert_eq!(table.listing(), vec!["foo.localdev".to_string()]);
    let site = table.get("foo.localdev").unwrap();
    assert_eq!(site.proxies.len(), 2);
    let mut normal = Vec::new();
    let mut i = 0;
    while i < site.proxies.len() {
        let key = site.proxies.location(i).trim();
        let key = if key == "/" { key } else { key.trim_end_matches('/') };
        normal.push((key.to_string(), site.proxies.target(i).trim_end_matches('/').to_string()));
        i += 1;
    }
    assert_eq!(normal, pairs(&[("/", "http://localhost:3000"), ("/api", "http://localhost:8080")]));
    let got = plan_list(&table);
    assert_eq!(
        got,
        vec![Action::Show(SiteDisplay {
            url: "https://foo.localdev".to_string(),
            rows: pairs(&[("/      ", "http://localhost:3000"), ("/api   ", "http://localhost:8080")]),
        })]
    );
    assert_eq!(count(&got, |a| matches!(a, Action::Show(_))), 1);
}
