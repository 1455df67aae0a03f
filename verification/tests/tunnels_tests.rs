use tunnelforge::config::{AppConfig, ServiceMapping, TunnelDefinition};
use tunnelforge::tunnels::{
    add_service, auto_start_plans, create_tunnel,
    delete_tunnel, plan_tunnel_start, remove_service, tunnel_name_for, StartPlan,
};

fn add(c: &mut AppConfig, tunnel_id: &str, s: ServiceMapping) -> Result<(), String> {
    add_service(c, tunnel_id, s.id, s.hostname, s.protocol, s.local_host, s.local_port, s.description)
}

fn svc(id: &str, hostname: &str) -> ServiceMapping {
    ServiceMapping {
        id: id.to_string(),
        hostname: hostname.to_string(),
        protocol: "http".to_string(),
        local_host: "localhost".to_string(),
        local_port: 8080,
        description: "web".to_string(),
    }
}

fn tun(id: &str, name: &str, token: Option<&str>, services: Vec<ServiceMapping>, auto: bool) -> TunnelDefinition {
    TunnelDefinition {
        id: id.to_string(),
        name: name.to_string(),
        token: token.map(|t| t.to_string()),
        credentials_file: None,
        services,
        auto_start: auto,
    }
}

fn config_with(tunnels: Vec<TunnelDefinition>) -> AppConfig {
    let mut c = AppConfig::default();
    c.tunnels = tunnels;
    c
}

#[test]
fn create_tunnel_appends_and_returns_it() {
    let mut c = AppConfig::default();
    let t = create_tunnel(&mut c, "id-1".to_string(), "home".to_string(), Some("eyJhIjoidGVzdCJ9".to_string()), true).unwrap();
    assert_eq!(t, tun("id-1", "home", Some("eyJhIjoidGVzdCJ9"), vec![], true));
    assert_eq!(c.tunnels, vec![t]);
}

#[test]
fn create_tunnel_refuses_duplicate_name() {
    let mut c = config_with(vec![tun("a", "home", None, vec![], false)]);
    let before = c.clone();
    let r = create_tunnel(&mut c, "b".to_string(), "home".to_string(), None, false);
    assert_eq!(r, Err("A tunnel named 'home' already exists".to_string()));
    assert_eq!(c, before);
}

#[test]
fn delete_tunnel_removes_every_tunnel_with_the_id() {
    let mut c = config_with(vec![
        tun("a", "first", None, vec![], false),
        tun("b", "second", None, vec![], false),
        tun("a", "third", None, vec![], false),
    ]);
    let stop = delete_tunnel(&mut c, "a");
    assert_eq!(stop, Some("first".to_string()));
    assert_eq!(c.tunnels, vec![tun("b", "second", None, vec![], false)]);
}

#[test]
fn delete_unknown_tunnel_changes_nothing() {
    let mut c = config_with(vec![tun("a", "first", None, vec![], false)]);
    let before = c.clone();
    assert_eq!(delete_tunnel(&mut c, "zzz"), None);
    assert_eq!(c, before);
}

#[test]
fn add_and_remove_service() {
    let mut c = config_with(vec![tun("a", "first", None, vec![], false), tun("b", "second", None, vec![], false)]);
    let before = c.clone();
    assert_eq!(add(&mut c, "b", svc("s1", "app.example.com")), Ok(()));
    assert_eq!(c.tunnels[1].services, vec![svc("s1", "app.example.com")]);
    assert!(c.tunnels[0].services.is_empty());
    assert_eq!(remove_service(&mut c, "b", "s1"), Ok(()));
    assert_eq!(c, before);
}

#[test]
fn add_service_to_unknown_tunnel_fails() {
    let mut c = config_with(vec![tun("a", "first", None, vec![], false)]);
    let before = c.clone();
    assert_eq!(add(&mut c, "x", svc("s1", "h")), Err("Tunnel not found".to_string()));
    assert_eq!(remove_service(&mut c, "x", "s1"), Err("Tunnel not found".to_string()));
    assert_eq!(c, before);
}

#[test]
fn add_service_builds_the_mapping() {
    let mut c = config_with(vec![tun("a", "first", None, vec![], false)]);
    add_service(&mut c, "a", "sid".to_string(), "h.example.com".to_string(), "tcp".to_string(), "127.0.0.1".to_string(), 22, "ssh".to_string()).unwrap();
    let s = &c.tunnels[0].services[0];
    assert_eq!(s.id, "sid");
    assert_eq!(s.hostname, "h.example.com");
    assert_eq!(s.protocol, "tcp");
    assert_eq!(s.local_host, "127.0.0.1");
    assert_eq!(s.local_port, 22);
    assert_eq!(s.description, "ssh");
}

#[test]
fn remove_service_removes_all_with_the_id() {
    let mut c = config_with(vec![tun("a", "first", None, vec![svc("s1", "x"), svc("s2", "y"), svc("s1", "z")], false)]);
    remove_service(&mut c, "a", "s1").unwrap();
    assert_eq!(c.tunnels[0].services, vec![svc("s2", "y")]);
}

#[test]
fn start_plan_prefers_token() {
    let c = config_with(vec![
        tun("a", "tok", Some("eyJhIjoidGVzdCJ9"), vec![], false),
        tun("b", "file", None, vec![svc("s", "h")], false),
        tun("c", "empty", None, vec![], false),
    ]);
    assert_eq!(
        plan_tunnel_start(&c, "a"),
        Ok(StartPlan::WithToken { tunnel_name: "tok".to_string(), token: "eyJhIjoidGVzdCJ9".to_string() })
    );
    assert_eq!(plan_tunnel_start(&c, "b"), Ok(StartPlan::WithConfigFile { tunnel: c.tunnels[1].clone() }));
    assert_eq!(
        plan_tunnel_start(&c, "c"),
        Err("No services configured for this tunnel. Add at least one service before starting.".to_string())
    );
    assert_eq!(plan_tunnel_start(&c, "d"), Err("Tunnel not found".to_string()));
}

#[test]
fn stop_target_is_the_tunnel_name() {
    let c = config_with(vec![tun("a", "home", None, vec![], false)]);
    assert_eq!(tunnel_name_for(&c, "a"), Ok("home".to_string()));
    assert_eq!(tunnel_name_for(&c, "b"), Err("Tunnel not found".to_string()));
}

#[test]
fn auto_start_only_when_enabled() {
    let mut c = config_with(vec![
        tun("a", "tok", Some("eyJhIjoidGVzdCJ9"), vec![], true),
        tun("b", "file", None, vec![svc("s", "h")], true),
        tun("c", "empty", None, vec![], true),
        tun("d", "manual", Some("eyJhIjoidGVzdCJ9"), vec![], false),
    ]);
    assert!(auto_start_plans(&c).is_empty());
    c.auto_start = true;
    assert_eq!(
        auto_start_plans(&c),
        vec![
            StartPlan::WithToken { tunnel_name: "tok".to_string(), token: "eyJhIjoidGVzdCJ9".to_string() },
            StartPlan::WithConfigFile { tunnel: c.tunnels[1].clone() },
        ]
    );
}

#[test]
fn update_settings_changes_only_the_flags() {
    let mut c = config_with(vec![tun("a", "home", None, vec![], false)]);
    c.update_settings(true, false);
    assert!(c.auto_start);
    assert!(!c.minimize_to_tray);
    assert_eq!(c.tunnels.len(), 1);
    assert_eq!(c.version, "0.1.0");
}

#[test]
fn find_tunnel_returns_first_match() {
    let c = config_with(vec![tun("x", "1", None, vec![], false), tun("a", "2", None, vec![], false), tun("a", "3", None, vec![], false)]);
    assert_eq!(c.find_tunnel("a"), Some(1));
    assert_eq!(c.find_tunnel("q"), None);
    assert!(c.has_tunnel_named("3"));
    assert!(!c.has_tunnel_named("4"));
}

#[test]
fn names_stay_unique_through_commands() {
    let mut c = AppConfig::default();
    for (id, name) in [("1", "a"), ("2", "b"), ("3", "a"), ("4", "c"), ("5", "b")] {
        let _ = create_tunnel(&mut c, id.to_string(), name.to_string(), None, false);
    }
    let names: Vec<&str> = c.tunnels.iter().map(|t| t.name.as_str()).collect();
    assert_eq!(names, vec!["a", "b", "c"]);
    add(&mut c, "2", svc("s", "h")).unwrap();
    delete_tunnel(&mut c, "1");
    let names: Vec<&str> = c.tunnels.iter().map(|t| t.name.as_str()).collect();
    assert_eq!(names, vec!["b", "c"]);
}
