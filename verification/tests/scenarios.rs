use web_distributor::dispatch::{cmd_add, cmd_apply, cmd_group_create, cmd_group_remove,
    cmd_remove};
use web_distributor::hashing::hash_password;
use web_distributor::passwd::passwd_add_login;
use web_distributor::plan::webserver_plan;
use web_distributor::registry::Registry;

fn fresh() -> Registry {
    Registry {
        home: "/srv/wd".to_string(),
        acme_redirect_configs: "/srv/acme".to_string(),
        routes: Vec::new(),
        login_groups: Vec::new(),
    }
}

#[test]
fn gated_route_renders_auth_directives_end_to_end() {
    let mut reg = fresh();
    cmd_add(
        &mut reg,
        "app.example.com".to_string(),
        "http://10.0.0.5:8080".to_string(),
        false,
    )
    .unwrap();

    let mut groups: Vec<String> = Vec::new();
    assert!(cmd_group_create(&groups, "staff").is_ok());
    groups.push("staff".to_string());

    let hash = hash_password("hunter2").unwrap();
    let file = passwd_add_login(&Vec::new(), "alice", &hash, false).unwrap();
    assert_eq!(file.len(), 1);
    assert!(file[0].starts_with("alice:$2"));

    cmd_apply(
        &mut reg,
        &groups,
        "app.example.com".to_string(),
        "staff".to_string(),
        false,
    )
    .unwrap();

    let plan = webserver_plan(&reg, "1.0");
    assert_eq!(plan.files.len(), 1);
    assert_eq!(plan.files[0].name, "app.example.com.nginx");
    assert!(plan.files[0].content.contains("auth_basic \"login\";"));
    assert!(plan.files[0]
        .content
        .contains("auth_basic_user_file /srv/wd/login_groups/staff;"));
}

#[test]
fn removing_group_regenerates_without_auth() {
    let mut reg = fresh();
    cmd_add(
        &mut reg,
        "app.example.com".to_string(),
        "http://10.0.0.5:8080".to_string(),
        false,
    )
    .unwrap();
    let groups = vec!["staff".to_string()];
    cmd_apply(
        &mut reg,
        &groups,
        "app.example.com".to_string(),
        "staff".to_string(),
        false,
    )
    .unwrap();
    assert!(webserver_plan(&reg, "1.0").files[0].content.contains("auth_basic"));

    cmd_group_remove(&mut reg, &groups, "staff").unwrap();
    assert!(reg.login_groups.is_empty());
    let plan = webserver_plan(&reg, "2.0");
    assert_eq!(plan.files.len(), 1);
    assert!(!plan.files[0].content.contains("auth_basic"));
}

#[test]
fn removing_route_drops_its_file_from_the_plan() {
    let mut reg = fresh();
    cmd_add(
        &mut reg,
        "app.example.com".to_string(),
        "http://10.0.0.5:8080".to_string(),
        false,
    )
    .unwrap();
    assert_eq!(webserver_plan(&reg, "1.0").files.len(), 1);

    cmd_remove(&mut reg, "app.example.com").unwrap();
    assert!(reg.routes.is_empty());
    let plan = webserver_plan(&reg, "2.0");
    assert!(plan.files.is_empty());
    assert_eq!(plan.backup_dir, "/srv/wd/nginx-old");
    assert_eq!(plan.archive_dir, "/srv/wd/nginx-old-2.0");
}
