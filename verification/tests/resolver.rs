use localdev_proxy::cli::Args;
use localdev_proxy::resolver::{
    choose_directory, find_candidates, first_existing, line_candidate, resolve_include_dir,
    root_config_candidates, DiscoveryError,
};

fn chars(s: &str) -> Vec<char> {
    s.chars().collect()
}

#[test]
fn one_include_line_names_the_directory() {
    assert_eq!(resolve_include_dir("include sites/*"), Ok("sites".to_string()));
}

#[test]
fn two_directories_are_ambiguous_and_both_are_listed() {
    let r = resolve_include_dir("include sites/*\ninclude servers/*\n");
    let e = r.unwrap_err();
    assert_eq!(e, DiscoveryError::Ambiguous(vec!["sites".to_string(), "servers".to_string()]));
    assert_eq!(e.exit_code(), 1);
    assert_eq!(
        e.report(),
        vec![
            "Found more than one potential directory!".to_string(),
            "sites".to_string(),
            "servers".to_string(),
        ]
    );
}

#[test]
fn no_include_line_is_inconclusive() {
    let e = resolve_include_dir("worker_processes 1;\nhttp {\n}\n").unwrap_err();
    assert_eq!(e, DiscoveryError::NoCandidate);
    assert_eq!(e.exit_code(), 1);
    assert_eq!(e.report(), vec!["Found more than one potential directory!".to_string()]);
    assert_eq!(resolve_include_dir(""), Err(DiscoveryError::NoCandidate));
}

#[test]
fn other_includes_are_passed_over() {
    let content = "http {\n    include       mime.types;\n    include /etc/nginx/conf.d/*.conf;\n    \
                   # include old/*\n    include servers/*;\n}\n";
    assert_eq!(find_candidates(content), vec!["servers".to_string()]);
    assert_eq!(resolve_include_dir(content), Ok("servers".to_string()));
}

#[test]
fn the_same_directory_twice_is_ambiguous() {
    assert_eq!(
        resolve_include_dir("include a1/*\n\tinclude   a1/*"),
        Err(DiscoveryError::Ambiguous(vec!["a1".to_string(), "a1".to_string()]))
    );
}

#[test]
fn a_line_puts_forward_what_was_captured_only_if_it_starts_with_the_keyword() {
    assert_eq!(line_candidate(&chars("  include x/*"), Some("x".to_string())), Some("x".to_string()));
    assert_eq!(line_candidate(&chars("# include x/*"), Some("x".to_string())), None);
    assert_eq!(line_candidate(&chars("include x"), None), None);
}

#[test]
fn choosing_among_candidates() {
    assert_eq!(choose_directory(vec![]), Err(DiscoveryError::NoCandidate));
    assert_eq!(choose_directory(vec!["a".to_string()]), Ok("a".to_string()));
    assert_eq!(
        choose_directory(vec!["a".to_string(), "b".to_string(), "c".to_string()]),
        Err(DiscoveryError::Ambiguous(vec!["a".to_string(), "b".to_string(), "c".to_string()]))
    );
}

#[test]
fn root_configuration_is_the_one_asked_for_or_the_usual_places() {
    assert_eq!(root_config_candidates(Some("/tmp/n.conf")), vec!["/tmp/n.conf".to_string()]);
    assert_eq!(
        root_config_candidates(None),
        vec!["/etc/nginx/nginx.conf".to_string(), "/usr/local/etc/nginx/nginx.conf".to_string()]
    );
    let args = Args { nginx_path: Some("x".to_string()), command: None, verbose: 2 };
    assert_eq!(args.root_configs(), vec!["x".to_string()]);
    assert!(args.is_verbose());
    let args = Args { nginx_path: None, command: None, verbose: 0 };
    assert_eq!(args.root_configs().len(), 2);
    assert!(!args.is_verbose());
}

#[test]
fn the_first_file_that_is_there_is_picked() {
    assert_eq!(first_existing(&[]), None);
    assert_eq!(first_existing(&[false, false]), None);
    assert_eq!(first_existing(&[false, true]), Some(1));
    assert_eq!(first_existing(&[true, true]), Some(0));
}
