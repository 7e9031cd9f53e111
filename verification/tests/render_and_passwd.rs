use web_distributor::hashing::hash_password;
use web_distributor::passwd::{passwd_add_login, passwd_has_login, passwd_revoke_login};
use web_distributor::render::{acme_redirect_config_build, nginx_proxy_build};
use web_distributor::strutil::{has_prefix, join_lines, split_lines, str_eq};

#[test]
fn vhost_contains_server_and_proxy_directives() {
    let out = nginx_proxy_build("app.example.com", "http://10.0.0.5:8080", None);
    assert!(out.contains("server_name app.example.com;"));
    assert!(out.contains("proxy_pass http://10.0.0.5:8080;"));
    assert!(out.contains("return 301 https://app.example.com$request_uri;"));
    assert!(out.contains("/var/lib/acme-redirect/live/app.example.com/fullchain"));
    assert!(out.contains("ssl_protocols TLSv1.2 TLSv1.3;"));
    assert!(out.contains("max-age=63072000"));
    assert!(out.contains("resolver 127.0.0.1;"));
    assert!(!out.contains("auth_basic"));
}

#[test]
fn vhost_with_login_group_has_auth_directives() {
    let out = nginx_proxy_build(
        "app.example.com",
        "http://10.0.0.5:8080",
        Some("/srv/wd/login_groups/staff".to_string()),
    );
    assert!(out.contains("auth_basic \"login\";"));
    assert!(out.contains("auth_basic_user_file /srv/wd/login_groups/staff;"));
}

#[test]
fn acme_config_declares_namespace() {
    let out = acme_redirect_config_build("app.example.com");
    assert!(out.contains("name = \"app.example.com\""));
    assert!(out.contains("dns_names = [\"app.example.com\"]"));
    assert!(out.contains("exec = "));
}

#[test]
fn string_helpers() {
    assert!(str_eq("abc", "abc"));
    assert!(!str_eq("abc", "abd"));
    assert!(has_prefix("web-distributor.x.conf", "web-distributor"));
    assert!(!has_prefix("other.conf", "web-distributor"));
    let lines = split_lines("a\nb\n\nc");
    assert_eq!(lines, vec!["a", "b", "", "c"]);
    assert_eq!(join_lines(&lines), "a\nb\n\nc");
}

#[test]
fn add_login_appends_entry() {
    let lines: Vec<String> = Vec::new();
    let out = passwd_add_login(&lines, "alice", "HASH", false).unwrap();
    assert_eq!(out, vec!["alice:HASH".to_string()]);
    assert!(passwd_has_login(&out, "alice"));
    assert!(!passwd_has_login(&out, "bob"));
}

#[test]
fn add_login_refuses_existing_without_force() {
    let lines = vec!["alice:OLD".to_string()];
    assert!(passwd_add_login(&lines, "alice", "NEW", false).is_err());
    let out = passwd_add_login(&lines, "alice", "NEW", true).unwrap();
    assert_eq!(out, vec!["alice:NEW".to_string()]);
}

#[test]
fn add_login_does_not_match_longer_names() {
    let lines = vec!["alice2:H2".to_string()];
    let out = passwd_add_login(&lines, "alice", "H1", false).unwrap();
    assert_eq!(out, vec!["alice2:H2".to_string(), "alice:H1".to_string()]);
}

#[test]
fn revoke_login_removes_entry() {
    let lines = vec!["alice:H1".to_string(), "bob:H2".to_string()];
    let out = passwd_revoke_login(&lines, "alice").unwrap();
    assert_eq!(out, vec!["bob:H2".to_string()]);
    assert!(passwd_revoke_login(&out, "alice").is_err());
}

#[test]
fn bcrypt_hash_has_expected_shape() {
    let h = hash_password("hunter2").unwrap();
    assert_eq!(h.len(), 60);
    assert!(h.starts_with("$2b$05$"));
    assert!(!h.contains(':'));
    assert!(!h.contains('\n'));
    let h2 = hash_password("hunter2").unwrap();
    assert_ne!(h, h2);
}

#[test]
fn replacing_login_changes_hash_but_keeps_single_line() {
    let h1 = hash_password("hunter2").unwrap();
    let lines: Vec<String> = Vec::new();
    let with_alice = passwd_add_login(&lines, "alice", &h1, false).unwrap();
    let h2 = hash_password("newpw").unwrap();
    let replaced = passwd_add_login(&with_alice, "alice", &h2, true).unwrap();
    assert_eq!(replaced.len(), 1);
    assert!(replaced[0].starts_with("alice:"));
    assert_ne!(replaced[0], with_alice[0]);
}
