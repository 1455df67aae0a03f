use tunnelforge::config::{
    generate_cloudflared_config, generate_quick_tunnel_args, get_config_dir, get_config_file_path,
    get_tunnel_config_path, sanitize_name, service_url, config_dir_from, tunnel_config_file_name,
    AppConfig, ServiceMapping, TunnelDefinition, IngressEntry, TunnelCredentials,
    cloudflared_config_yaml, config_text_or_error, render_cloudflared_config,
};
use tunnelforge::yaml::Yaml;
use tunnelforge::text::u16_to_decimal;
use std::path::PathBuf;

fn service(hostname: &str, protocol: &str, host: &str, port: u16) -> ServiceMapping {
    ServiceMapping {
        id: format!("id-{}", hostname),
        hostname: hostname.to_string(),
        protocol: protocol.to_string(),
        local_host: host.to_string(),
        local_port: port,
        description: String::new(),
    }
}

fn tunnel(name: &str, credentials: Option<&str>, services: Vec<ServiceMapping>) -> TunnelDefinition {
    TunnelDefinition {
        id: "t1".to_string(),
        name: name.to_string(),
        token: None,
        credentials_file: credentials.map(|c| c.to_string()),
        services,
        auto_start: false,
    }
}

#[test]
fn decimal_rendering_matches_to_string() {
    for n in [0u16, 7, 10, 99, 100, 8080, 35117, 65535] {
        assert_eq!(u16_to_decimal(n), n.to_string());
    }
}

#[test]
fn default_app_config() {
    let c = AppConfig::default();
    assert!(c.tunnels.is_empty());
    assert_eq!(c.cloudflare_token, None);
    assert!(!c.auto_start);
    assert!(c.minimize_to_tray);
    assert_eq!(c.version, "0.1.0");
}

#[test]
fn sanitize_replaces_unsafe_characters() {
    assert_eq!(sanitize_name("my tunnel/1"), "my_tunnel_1");
    assert_eq!(sanitize_name("web-app_2"), "web-app_2");
    assert_eq!(sanitize_name("a.b:c"), "a_b_c");
    assert_eq!(sanitize_name(""), "");
    // Unicode letters count as alphanumeric
    assert_eq!(sanitize_name("café ü"), "café_ü");
}

#[test]
fn sanitize_is_idempotent_on_examples() {
    for name in ["my tunnel/1", "x!y?z", "ok", "ä ö"] {
        let once = sanitize_name(name);
        assert_eq!(sanitize_name(&once), once);
        assert_eq!(once.chars().count(), name.chars().count());
    }
}

#[test]
fn service_urls_per_protocol() {
    assert_eq!(service_url(&service("a", "http", "localhost", 3000)), "http://localhost:3000");
    assert_eq!(service_url(&service("a", "https", "10.0.0.2", 443)), "https://10.0.0.2:443");
    assert_eq!(service_url(&service("a", "tcp", "127.0.0.1", 5432)), "tcp://127.0.0.1:5432");
    assert_eq!(service_url(&service("a", "udp", "127.0.0.1", 53)), "udp://127.0.0.1:53");
    assert_eq!(service_url(&service("a", "ssh", "192.168.1.5", 22)), "ssh://localhost:22");
    assert_eq!(service_url(&service("a", "rdp", "192.168.1.9", 3389)), "tcp://192.168.1.9:3389");
    assert_eq!(service_url(&service("a", "gopher", "h", 70)), "http://h:70");
}

#[test]
fn quick_tunnel_args_per_protocol() {
    assert_eq!(generate_quick_tunnel_args(8080, "http"), vec!["tunnel", "--url", "http://localhost:8080"]);
    assert_eq!(generate_quick_tunnel_args(443, "https"), vec!["tunnel", "--url", "https://localhost:443"]);
    assert_eq!(generate_quick_tunnel_args(22, "tcp"), vec!["tunnel", "--url", "tcp://localhost:22"]);
    assert_eq!(generate_quick_tunnel_args(53, "udp"), vec!["tunnel", "--url", "http://localhost:53"]);
}

#[test]
fn cloudflared_config_with_credentials() {
    let t = tunnel(
        "home",
        Some("/etc/creds.json"),
        vec![service("app.example.com", "http", "localhost", 3000), service("ssh.example.com", "ssh", "pi", 22)],
    );
    let doc = generate_cloudflared_config(&t);
    assert_eq!(
        doc.credentials,
        Some(TunnelCredentials { tunnel: "home".to_string(), credentials_file: "/etc/creds.json".to_string() })
    );
    assert_eq!(
        doc.ingress,
        vec![
            IngressEntry { hostname: Some("app.example.com".to_string()), service: "http://localhost:3000".to_string() },
            IngressEntry { hostname: Some("ssh.example.com".to_string()), service: "ssh://localhost:22".to_string() },
            IngressEntry { hostname: None, service: "http_status:404".to_string() },
        ]
    );
    assert_eq!(doc.metrics, "127.0.0.1:35117");
}

#[test]
fn cloudflared_config_without_services_has_only_catch_all() {
    let mut t = tunnel("tok", None, vec![]);
    t.token = Some("eyJhIjoidGVzdCJ9".to_string());
    let doc = generate_cloudflared_config(&t);
    assert_eq!(doc.credentials, None);
    assert_eq!(doc.ingress, vec![IngressEntry { hostname: None, service: "http_status:404".to_string() }]);
}

#[test]
fn config_dir_from_base() {
    let d = config_dir_from(Some(PathBuf::from("/home/a/.config")));
    assert_eq!(d.root, Some(PathBuf::from("/home/a/.config")));
    assert_eq!(d.segments, vec!["tunnelforge"]);
    assert_eq!(config_dir_from(None).root, None);
}

#[test]
fn config_paths_end_in_expected_names() {
    let dir = get_config_dir();
    assert_eq!(dir.root, dirs::config_dir());
    assert_eq!(dir.segments, vec!["tunnelforge"]);
    let file = get_config_file_path();
    assert_eq!(file.root, dir.root);
    assert_eq!(file.segments, vec!["tunnelforge", "config.json"]);
    let t = get_tunnel_config_path("my tunnel/../x");
    assert_eq!(t.root, dir.root);
    assert_eq!(t.segments, vec!["tunnelforge", "tunnels", "my_tunnel____x.yml"]);
}

#[test]
fn tunnel_config_file_names() {
    assert_eq!(tunnel_config_file_name("prod/web"), "prod_web.yml");
    assert_eq!(tunnel_config_file_name("x"), "x.yml");
}


fn t(s: &str) -> Yaml {
    Yaml::text(s.to_string())
}

#[test]
fn config_yaml_keys_in_order() {
    let tn = tunnel("my-tunnel", Some("/c.json"), vec![service("app.example.com", "http", "localhost", 3000)]);
    let y = cloudflared_config_yaml(&generate_cloudflared_config(&tn));
    let expected = Yaml::dict(vec![
        (t("tunnel"), t("my-tunnel")),
        (t("credentials-file"), t("/c.json")),
        (
            t("ingress"),
            Yaml::list(vec![
                Yaml::dict(vec![(t("hostname"), t("app.example.com")), (t("service"), t("http://localhost:3000"))]),
                Yaml::dict(vec![(t("service"), t("http_status:404"))]),
            ]),
        ),
        (t("metrics"), t("127.0.0.1:35117")),
    ]);
    assert_eq!(y, expected);
}

#[test]
fn config_yaml_without_credentials_starts_with_ingress() {
    let tn = tunnel("plain", None, vec![]);
    let y = cloudflared_config_yaml(&generate_cloudflared_config(&tn));
    let expected = Yaml::dict(vec![
        (t("ingress"), Yaml::list(vec![Yaml::dict(vec![(t("service"), t("http_status:404"))])])),
        (t("metrics"), t("127.0.0.1:35117")),
    ]);
    assert_eq!(y, expected);
}

#[test]
fn rendered_config_reads_back() {
    let tn = tunnel(
        "my-tunnel",
        Some("/home/u/.cloudflared/abc.json"),
        vec![service("app.example.com", "http", "localhost", 3000), service("db.example.com", "tcp", "10.0.0.2", 5432)],
    );
    let text = render_cloudflared_config(&tn);
    assert_ne!(text, "# Error generating config");
    assert!(text.starts_with("tunnel: my-tunnel\n"));
    let v: serde_yaml::Value = serde_yaml::from_str(&text).unwrap();
    let m = v.as_mapping().unwrap();
    let keys: Vec<&str> = m.keys().map(|k| k.as_str().unwrap()).collect();
    assert_eq!(keys, vec!["tunnel", "credentials-file", "ingress", "metrics"]);
    assert_eq!(m["credentials-file"].as_str(), Some("/home/u/.cloudflared/abc.json"));
    assert_eq!(m["metrics"].as_str(), Some("127.0.0.1:35117"));
    let ingress = m["ingress"].as_sequence().unwrap();
    assert_eq!(ingress.len(), 3);
    assert_eq!(ingress[0]["hostname"].as_str(), Some("app.example.com"));
    assert_eq!(ingress[0]["service"].as_str(), Some("http://localhost:3000"));
    assert_eq!(ingress[1]["hostname"].as_str(), Some("db.example.com"));
    assert_eq!(ingress[1]["service"].as_str(), Some("tcp://10.0.0.2:5432"));
    assert_eq!(ingress[2].as_mapping().unwrap().len(), 1);
    assert_eq!(ingress[2]["service"].as_str(), Some("http_status:404"));
}

#[test]
fn rendered_config_without_credentials_has_no_tunnel_key() {
    let text = render_cloudflared_config(&tunnel("plain", None, vec![]));
    let v: serde_yaml::Value = serde_yaml::from_str(&text).unwrap();
    let m = v.as_mapping().unwrap();
    let keys: Vec<&str> = m.keys().map(|k| k.as_str().unwrap()).collect();
    assert_eq!(keys, vec!["ingress", "metrics"]);
}

#[test]
fn config_text_falls_back_to_error_line() {
    assert_eq!(config_text_or_error(None), "# Error generating config");
    assert_eq!(config_text_or_error(Some("a: b\n".to_string())), "a: b\n");
}
