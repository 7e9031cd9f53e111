use web_distributor::codec::{parse_registry, serialize_registry};
use web_distributor::plan::{acme_owned, acme_plan, webserver_plan};
use web_distributor::registry::Registry;

fn sample_registry() -> Registry {
    Registry {
        home: "/srv/wd".to_string(),
        acme_redirect_configs: "/srv/acme".to_string(),
        routes: vec![
            ("app.example.com".to_string(), "http://10.0.0.5:8080".to_string()),
            ("b.example.com".to_string(), "http://10.0.0.6:9000".to_string()),
        ],
        login_groups: vec![("app.example.com".to_string(), "staff".to_string())],
    }
}

#[test]
fn serialize_then_parse_restores_registry() {
    let reg = sample_registry();
    let text = serialize_registry(&reg);
    let back = parse_registry(&text).unwrap();
    assert_eq!(back.home, reg.home);
    assert_eq!(back.acme_redirect_configs, reg.acme_redirect_configs);
    assert_eq!(back.routes, reg.routes);
    assert_eq!(back.login_groups, reg.login_groups);
}

#[test]
fn serialize_empty_then_parse() {
    let reg = Registry {
        home: "/etc/web-distributor".to_string(),
        acme_redirect_configs: "/etc/acme-redirect.d".to_string(),
        routes: Vec::new(),
        login_groups: Vec::new(),
    };
    let text = serialize_registry(&reg);
    let back = parse_registry(&text).unwrap();
    assert_eq!(back.home, reg.home);
    assert!(back.routes.is_empty());
    assert!(back.login_groups.is_empty());
}

#[test]
fn parse_rejects_garbage() {
    assert!(parse_registry("not a registry").is_err());
    assert!(parse_registry("").is_err());
    assert!(parse_registry("home = \"/x\"").is_err());
}

#[test]
fn parse_accepts_canonical_document() {
    let text = "home = \"/srv/wd\"\nacme_redirect_configs = \"/srv/acme\"\n\n[routes]\n\"a.com\" = \"http://x\"\n\n[login_groups]\n";
    let reg = parse_registry(text).unwrap();
    assert_eq!(reg.home, "/srv/wd");
    assert_eq!(reg.routes, vec![("a.com".to_string(), "http://x".to_string())]);
}

#[test]
fn webserver_plan_lists_one_file_per_route() {
    let reg = sample_registry();
    let p = webserver_plan(&reg, "123.45");
    assert_eq!(p.current_dir, "/srv/wd/nginx");
    assert_eq!(p.backup_dir, "/srv/wd/nginx-old");
    assert_eq!(p.archive_dir, "/srv/wd/nginx-old-123.45");
    assert_eq!(p.files.len(), 2);
    assert_eq!(p.files[0].name, "app.example.com.nginx");
    assert!(p.files[0].content.contains("auth_basic_user_file /srv/wd/login_groups/staff;"));
    assert_eq!(p.files[1].name, "b.example.com.nginx");
    assert!(!p.files[1].content.contains("auth_basic"));
}

#[test]
fn webserver_plan_on_empty_registry_writes_nothing() {
    let reg = Registry {
        home: "/srv/wd".to_string(),
        acme_redirect_configs: "/srv/acme".to_string(),
        routes: Vec::new(),
        login_groups: Vec::new(),
    };
    let p = webserver_plan(&reg, "1.0");
    assert!(p.files.is_empty());
    let a = acme_plan(&reg, "1.0", &Vec::new());
    assert!(a.files.is_empty());
    assert!(a.moves.is_empty());
    assert_eq!(a.backup_dir, "/srv/acme/web-distributor-old");
}

#[test]
fn acme_plan_moves_owned_entries_only() {
    let reg = sample_registry();
    let entries = vec![
        "web-distributor.old-route.conf".to_string(),
        "other.conf".to_string(),
        "web-distributor-old".to_string(),
        "web-distributor-old-9.9".to_string(),
    ];
    let p = acme_plan(&reg, "9.9", &entries);
    assert_eq!(p.moves, vec!["web-distributor.old-route.conf".to_string()]);
    assert_eq!(p.archive_dir, "/srv/acme/web-distributor-old-9.9");
    assert_eq!(p.files.len(), 2);
    assert_eq!(p.files[0].name, "web-distributor.app.example.com.conf");
    assert!(p.files[0].content.contains("name = \"app.example.com\""));
}

#[test]
fn ownership_predicate() {
    assert!(acme_owned("web-distributor.a.com.conf"));
    assert!(acme_owned("web-distributor"));
    assert!(!acme_owned("web-distributor-old"));
    assert!(!acme_owned("web-distributor-old-123"));
    assert!(!acme_owned("other.conf"));
    assert!(!acme_owned(""));
}

#[test]
fn two_generations_are_bytewise_identical() {
    let reg = sample_registry();
    let p1 = webserver_plan(&reg, "1.1");
    let p2 = webserver_plan(&reg, "2.2");
    assert_eq!(p1.files.len(), p2.files.len());
    for i in 0..p1.files.len() {
        assert_eq!(p1.files[i].name, p2.files[i].name);
        assert_eq!(p1.files[i].content, p2.files[i].content);
    }
    let a1 = acme_plan(&reg, "1.1", &Vec::new());
    let a2 = acme_plan(&reg, "2.2", &Vec::new());
    for i in 0..a1.files.len() {
        assert_eq!(a1.files[i].name, a2.files[i].name);
        assert_eq!(a1.files[i].content, a2.files[i].content);
    }
}
