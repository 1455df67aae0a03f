use std::path::PathBuf;

use tunnelforge::path::FsPath;
use tunnelforge::quick_tunnel::{extract_quick_tunnel_url, quick_tunnel_command, QUICK_TUNNEL_NAME};

#[test]
fn url_from_cloudflared_banner() {
    let line = "2024-01-01T00:00:00Z INF |  https://funny-words-here.trycloudflare.com                                 |";
    assert_eq!(extract_quick_tunnel_url(line), Some("https://funny-words-here.trycloudflare.com".to_string()));
}

#[test]
fn url_ends_at_pipe_or_whitespace() {
    assert_eq!(extract_quick_tunnel_url("x https://a.trycloudflare.com|rest"), Some("https://a.trycloudflare.com".to_string()));
    assert_eq!(extract_quick_tunnel_url("https://b.trycloudflare.com\tmore"), Some("https://b.trycloudflare.com".to_string()));
    assert_eq!(extract_quick_tunnel_url("https://c.trycloudflare.com"), Some("https://c.trycloudflare.com".to_string()));
}

#[test]
fn lines_without_a_quick_tunnel_address() {
    assert_eq!(extract_quick_tunnel_url("INF Starting tunnel"), None);
    assert_eq!(extract_quick_tunnel_url("see https://developers.cloudflare.com for docs"), None);
    assert_eq!(extract_quick_tunnel_url(".trycloudflare.com https://x"), None);
}

#[test]
fn only_the_trycloudflare_address_counts() {
    assert_eq!(
        extract_quick_tunnel_url("https://a.b https://x.trycloudflare.com"),
        Some("https://x.trycloudflare.com".to_string())
    );
    assert_eq!(extract_quick_tunnel_url("https://docs.example.com see x.trycloudflare.com"), None);
    assert_eq!(
        extract_quick_tunnel_url("https://a.b|https://c.trycloudflare.com|https://d.trycloudflare.com"),
        Some("https://c.trycloudflare.com".to_string())
    );
    // A non-breaking space ends the address as well.
    assert_eq!(
        extract_quick_tunnel_url("https://e.trycloudflare.com\u{a0}x"),
        Some("https://e.trycloudflare.com".to_string())
    );
}

#[test]
fn non_ascii_text_before_the_address() {
    assert_eq!(extract_quick_tunnel_url("ünïcödé → https://é.trycloudflare.com ok"), Some("https://é.trycloudflare.com".to_string()));
}

#[test]
fn quick_tunnel_launch() {
    let bin = FsPath { root: Some(PathBuf::from("/bin/cloudflared")), segments: vec![] };
    let c = quick_tunnel_command(Some(bin.clone()), 8080, "http").unwrap();
    assert_eq!(c.binary, bin);
    assert_eq!(c.args, vec!["tunnel", "--url", "http://localhost:8080"]);
    assert_eq!(quick_tunnel_command(None, 1, "tcp"), Err("cloudflared not installed".to_string()));
    assert_eq!(QUICK_TUNNEL_NAME, "quick-tunnel");
}
