use web_distributor::dispatch::{cmd_add, cmd_apply, cmd_disable, cmd_group_create,
    cmd_group_remove, cmd_remove, list_line_plain, list_line_with_group,
    missing_group_files, names_contain, CmdError};
use web_distributor::registry::{default_registry, Registry};

fn empty_registry() -> Registry {
    Registry {
        home: "/srv/wd".to_string(),
        acme_redirect_configs: "/srv/acme".to_string(),
        routes: Vec::new(),
        login_groups: Vec::new(),
    }
}

#[test]
fn default_registry_has_default_paths() {
    let reg = default_registry();
    assert_eq!(reg.home, "/etc/web-distributor");
    assert_eq!(reg.acme_redirect_configs, "/etc/acme-redirect.d");
    assert!(reg.routes.is_empty());
    assert!(reg.login_groups.is_empty());
}

#[test]
fn add_inserts_route() {
    let mut reg = empty_registry();
    let r = cmd_add(
        &mut reg,
        "app.example.com".to_string(),
        "http://10.0.0.5:8080".to_string(),
        false,
    );
    assert!(r.is_ok());
    assert_eq!(reg.routes.len(), 1);
    assert_eq!(reg.routes[0].0, "app.example.com");
    assert_eq!(reg.routes[0].1, "http://10.0.0.5:8080");
}

#[test]
fn add_existing_without_force_fails_and_leaves_registry_unchanged() {
    let mut reg = empty_registry();
    cmd_add(&mut reg, "a.com".to_string(), "http://x".to_string(), false).unwrap();
    let r = cmd_add(&mut reg, "a.com".to_string(), "http://y".to_string(), false);
    assert_eq!(r, Err(CmdError::RouteExists));
    assert_eq!(reg.routes.len(), 1);
    assert_eq!(reg.routes[0].1, "http://x");
}

#[test]
fn add_existing_with_force_overwrites() {
    let mut reg = empty_registry();
    cmd_add(&mut reg, "a.com".to_string(), "http://x".to_string(), false).unwrap();
    let r = cmd_add(&mut reg, "a.com".to_string(), "http://y".to_string(), true);
    assert!(r.is_ok());
    assert_eq!(reg.routes.len(), 1);
    assert_eq!(reg.routes[0].1, "http://y");
}

#[test]
fn add_then_remove_restores_prior_state() {
    let mut reg = empty_registry();
    cmd_add(&mut reg, "keep.com".to_string(), "http://k".to_string(), false).unwrap();
    let before = reg.routes.clone();
    cmd_add(&mut reg, "d.com".to_string(), "http://t".to_string(), false).unwrap();
    cmd_remove(&mut reg, "d.com").unwrap();
    assert_eq!(reg.routes, before);
}

#[test]
fn remove_missing_route_fails() {
    let mut reg = empty_registry();
    let r = cmd_remove(&mut reg, "ghost.com");
    assert_eq!(r, Err(CmdError::RouteMissing));
}

#[test]
fn group_create_refuses_existing() {
    let groups = vec!["staff".to_string()];
    assert_eq!(cmd_group_create(&groups, "staff"), Err(CmdError::GroupExists));
    assert!(cmd_group_create(&groups, "admins").is_ok());
}

#[test]
fn apply_binds_group_to_route() {
    let mut reg = empty_registry();
    cmd_add(&mut reg, "a.com".to_string(), "http://x".to_string(), false).unwrap();
    let groups = vec!["staff".to_string()];
    let r = cmd_apply(&mut reg, &groups, "a.com".to_string(), "staff".to_string(), false);
    assert!(r.is_ok());
    assert_eq!(reg.login_groups.len(), 1);
    assert_eq!(reg.login_groups[0], ("a.com".to_string(), "staff".to_string()));
}

#[test]
fn apply_missing_group_fails() {
    let mut reg = empty_registry();
    cmd_add(&mut reg, "a.com".to_string(), "http://x".to_string(), false).unwrap();
    let groups: Vec<String> = Vec::new();
    let r = cmd_apply(&mut reg, &groups, "a.com".to_string(), "staff".to_string(), false);
    assert_eq!(r, Err(CmdError::GroupMissing));
    assert!(reg.login_groups.is_empty());
}

#[test]
fn apply_missing_route_fails_nonzero() {
    let mut reg = empty_registry();
    let groups = vec!["staff".to_string()];
    let r = cmd_apply(&mut reg, &groups, "a.com".to_string(), "staff".to_string(), false);
    assert_eq!(r, Err(CmdError::RouteMissing));
}

#[test]
fn apply_bound_route_requires_force() {
    let mut reg = empty_registry();
    cmd_add(&mut reg, "a.com".to_string(), "http://x".to_string(), false).unwrap();
    let groups = vec!["staff".to_string(), "admins".to_string()];
    cmd_apply(&mut reg, &groups, "a.com".to_string(), "staff".to_string(), false).unwrap();
    let r = cmd_apply(&mut reg, &groups, "a.com".to_string(), "admins".to_string(), false);
    assert_eq!(r, Err(CmdError::BindingExists));
    let r2 = cmd_apply(&mut reg, &groups, "a.com".to_string(), "admins".to_string(), true);
    assert!(r2.is_ok());
    assert_eq!(reg.login_groups[0].1, "admins");
}

#[test]
fn disable_removes_binding() {
    let mut reg = empty_registry();
    cmd_add(&mut reg, "a.com".to_string(), "http://x".to_string(), false).unwrap();
    let groups = vec!["staff".to_string()];
    cmd_apply(&mut reg, &groups, "a.com".to_string(), "staff".to_string(), false).unwrap();
    assert!(cmd_disable(&mut reg, "a.com").is_ok());
    assert!(reg.login_groups.is_empty());
    assert_eq!(cmd_disable(&mut reg, "a.com"), Err(CmdError::BindingMissing));
}

#[test]
fn group_remove_purges_bindings() {
    let mut reg = empty_registry();
    cmd_add(&mut reg, "a.com".to_string(), "http://x".to_string(), false).unwrap();
    cmd_add(&mut reg, "b.com".to_string(), "http://y".to_string(), false).unwrap();
    let groups = vec!["staff".to_string(), "other".to_string()];
    cmd_apply(&mut reg, &groups, "a.com".to_string(), "staff".to_string(), false).unwrap();
    cmd_apply(&mut reg, &groups, "b.com".to_string(), "other".to_string(), false).unwrap();
    let r = cmd_group_remove(&mut reg, &groups, "staff");
    assert!(r.is_ok());
    assert_eq!(reg.login_groups.len(), 1);
    assert_eq!(reg.login_groups[0].0, "b.com");
    assert_eq!(reg.routes.len(), 2);
}

#[test]
fn group_remove_missing_fails() {
    let mut reg = empty_registry();
    let groups: Vec<String> = Vec::new();
    assert_eq!(cmd_group_remove(&mut reg, &groups, "staff"), Err(CmdError::GroupMissing));
}

#[test]
fn heal_reports_missing_group_files() {
    let mut reg = empty_registry();
    reg.login_groups.push(("a.com".to_string(), "staff".to_string()));
    reg.login_groups.push(("b.com".to_string(), "admins".to_string()));
    let existing = vec!["staff".to_string()];
    let missing = missing_group_files(&reg, &existing);
    assert_eq!(missing, vec!["admins".to_string()]);
    assert!(names_contain(&existing, "staff"));
    assert!(!names_contain(&existing, "admins"));
}

#[test]
fn list_lines_format() {
    assert_eq!(list_line_plain("a.com", "http://x"), "a.com => http://x");
    assert_eq!(
        list_line_with_group("a.com", "http://x", "staff"),
        "a.com => http://x, login group: staff"
    );
}
