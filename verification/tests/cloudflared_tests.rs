use tunnelforge::cloudflared::{CloudflaredManager, ProcessCheck, TargetArch, TargetOs, Timestamp};
use std::path::PathBuf;

use tunnelforge::path::FsPath;

#[test]
fn new_manager_knows_no_tunnel() {
    let m = CloudflaredManager::new();
    assert_eq!(m.get_status("x"), None);
    assert!(m.get_all_statuses().is_empty());
}

#[test]
fn start_records_a_running_status() {
    let mut m = CloudflaredManager::new();
    let at = Timestamp { secs: 1_700_000_000, nanos: 5 };
    m.record_started_at("home", 4242, at);
    let st = m.get_status("home").unwrap();
    assert_eq!(st.name, "home");
    assert!(st.running);
    assert_eq!(st.pid, Some(4242));
    assert_eq!(st.started_at, Some(at));
    assert_eq!(st.public_url, None);
    assert!(st.services.is_empty());
    assert_eq!(st.error, None);
    assert_eq!((st.bytes_in, st.bytes_out), (0, 0));
}

#[test]
fn stop_clears_process_and_start_time() {
    let mut m = CloudflaredManager::new();
    m.record_started_at("home", 7, Timestamp { secs: 1, nanos: 0 });
    m.record_started_at("work", 8, Timestamp { secs: 2, nanos: 0 });
    m.record_stopped("home");
    let st = m.get_status("home").unwrap();
    assert!(!st.running);
    assert_eq!(st.pid, None);
    assert_eq!(st.started_at, None);
    assert_eq!(st.error, None);
    let other = m.get_status("work").unwrap();
    assert!(other.running);
    assert_eq!(other.pid, Some(8));
}

#[test]
fn stop_of_unknown_tunnel_changes_nothing() {
    let mut m = CloudflaredManager::new();
    m.record_stopped("ghost");
    assert_eq!(m.get_status("ghost"), None);
    assert!(m.get_all_statuses().is_empty());
}

#[test]
fn restart_replaces_the_status() {
    let mut m = CloudflaredManager::new();
    m.record_started_at("home", 1, Timestamp { secs: 1, nanos: 0 });
    m.record_public_url("home", "https://a.trycloudflare.com".to_string());
    m.record_started_at("home", 2, Timestamp { secs: 3, nanos: 0 });
    let all = m.get_all_statuses();
    assert_eq!(all.len(), 1);
    assert_eq!(all[0].pid, Some(2));
    assert_eq!(all[0].public_url, None);
}

#[test]
fn process_checks() {
    let mut m = CloudflaredManager::new();
    m.record_started_at("a", 1, Timestamp { secs: 1, nanos: 0 });
    m.record_started_at("b", 2, Timestamp { secs: 1, nanos: 0 });
    m.record_started_at("c", 3, Timestamp { secs: 1, nanos: 0 });
    let before = m.get_status("a");
    assert!(!m.record_process_check("a", ProcessCheck::StillRunning));
    assert_eq!(m.get_status("a"), before);
    assert!(m.record_process_check("b", ProcessCheck::Exited));
    assert!(m.record_process_check("c", ProcessCheck::Failed));
    assert!(m.get_status("a").unwrap().running);
    for name in ["b", "c"] {
        let st = m.get_status(name).unwrap();
        assert!(!st.running);
        assert_eq!(st.pid, None);
        assert_eq!(st.started_at, None);
        assert_eq!(st.error, Some("Process exited unexpectedly".to_string()));
    }
    assert!(m.record_process_check("unknown", ProcessCheck::Exited));
    assert_eq!(m.get_status("unknown"), None);
}

#[test]
fn live_check_leaves_a_stopped_status_stopped() {
    let mut m = CloudflaredManager::new();
    m.record_started_at("a", 1, Timestamp { secs: 1, nanos: 0 });
    m.record_stopped("a");
    assert!(!m.record_process_check("a", ProcessCheck::StillRunning));
    let st = m.get_status("a").unwrap();
    assert!(!st.running);
    assert_eq!(st.pid, None);
    for s in m.get_all_statuses() {
        assert_eq!(s.running, s.pid.is_some());
        assert_eq!(s.running, s.started_at.is_some());
        assert!(!s.running || s.error.is_none());
    }
}

#[test]
fn public_url_is_recorded() {
    let mut m = CloudflaredManager::new();
    m.record_public_url("quick-tunnel", "https://x.trycloudflare.com".to_string());
    assert_eq!(m.get_status("quick-tunnel"), None);
    m.record_started_at("quick-tunnel", 9, Timestamp { secs: 1, nanos: 0 });
    m.record_public_url("quick-tunnel", "https://x.trycloudflare.com".to_string());
    assert_eq!(m.get_status("quick-tunnel").unwrap().public_url, Some("https://x.trycloudflare.com".to_string()));
}

#[test]
fn all_statuses_each_once() {
    let mut m = CloudflaredManager::new();
    for (i, name) in ["x", "y", "x", "z"].iter().enumerate() {
        m.record_started_at(name, i as u32, Timestamp { secs: 0, nanos: 0 });
    }
    let mut names: Vec<String> = m.get_all_statuses().into_iter().map(|s| s.name).collect();
    names.sort();
    assert_eq!(names, vec!["x", "y", "z"]);
    assert_eq!(m.get_status("x").unwrap().pid, Some(2));
}

#[test]
fn download_urls() {
    let base = "https://github.com/cloudflare/cloudflared/releases/latest/download/";
    assert_eq!(CloudflaredManager::get_download_url(TargetOs::Windows, TargetArch::Aarch64), format!("{}cloudflared-windows-amd64.exe", base));
    assert_eq!(CloudflaredManager::get_download_url(TargetOs::MacOs, TargetArch::Aarch64), format!("{}cloudflared-darwin-arm64.tgz", base));
    assert_eq!(CloudflaredManager::get_download_url(TargetOs::MacOs, TargetArch::Other), format!("{}cloudflared-darwin-amd64.tgz", base));
    assert_eq!(CloudflaredManager::get_download_url(TargetOs::Linux, TargetArch::Aarch64), format!("{}cloudflared-linux-arm64", base));
    assert_eq!(CloudflaredManager::get_download_url(TargetOs::Linux, TargetArch::Other), format!("{}cloudflared-linux-amd64", base));
}

#[test]
fn archive_downloads() {
    assert!(CloudflaredManager::is_archive_download(CloudflaredManager::get_download_url(TargetOs::MacOs, TargetArch::Other)));
    assert!(!CloudflaredManager::is_archive_download(CloudflaredManager::get_download_url(TargetOs::Linux, TargetArch::Other)));
    assert!(!CloudflaredManager::is_archive_download("tgz"));
    assert!(CloudflaredManager::is_archive_download(".tgz"));
}

#[test]
fn binary_paths() {
    let p = CloudflaredManager::binary_path_from(Some(PathBuf::from("/data")), TargetOs::Windows);
    assert_eq!(p.root, Some(PathBuf::from("/data")));
    assert_eq!(p.segments, vec!["tunnelforge", "cloudflared.exe"]);
    let q = CloudflaredManager::binary_path_from(None, TargetOs::Linux);
    assert_eq!(q.root, None);
    assert_eq!(q.segments, vec!["tunnelforge", "cloudflared"]);
    let r = CloudflaredManager::get_binary_path(TargetOs::MacOs);
    assert_eq!(r.root, dirs::data_dir());
    assert_eq!(r.segments, vec!["tunnelforge", "cloudflared"]);
}

#[test]
fn managed_binary_wins() {
    let managed = FsPath { root: Some(PathBuf::from("/d")), segments: vec!["tunnelforge".to_string(), "cloudflared".to_string()] };
    assert_eq!(CloudflaredManager::resolve_binary(managed.clone(), true), Some(managed.clone()));
    assert!(CloudflaredManager::is_installed(true));
    let on_path = which::which("cloudflared").ok();
    assert_eq!(CloudflaredManager::is_installed(false), on_path.is_some());
    assert_eq!(
        CloudflaredManager::resolve_binary(managed, false),
        on_path.map(|p| FsPath {
            root: p.parent().map(|d| d.to_path_buf()),
            segments: vec![p.file_name().unwrap().to_string_lossy().into_owned()],
        })
    );
}

#[test]
fn installed_and_resolved_from_search_results() {
    let managed = FsPath { root: None, segments: vec!["tunnelforge".to_string(), "cloudflared".to_string()] };
    let found = Some(FsPath { root: Some(PathBuf::from("/usr/local/bin")), segments: vec!["cloudflared".to_string()] });
    assert!(CloudflaredManager::installed_from(true, None));
    assert!(CloudflaredManager::installed_from(false, found.clone()));
    assert!(!CloudflaredManager::installed_from(false, None));
    assert_eq!(CloudflaredManager::resolve_binary_from(managed.clone(), true, found.clone()), Some(managed.clone()));
    assert_eq!(
        CloudflaredManager::resolve_binary_from(managed.clone(), false, found.clone()),
        found
    );
    assert_eq!(CloudflaredManager::resolve_binary_from(managed, false, None), None);
}

#[test]
fn launch_commands() {
    let bin = FsPath { root: Some(PathBuf::from("/usr/bin/cloudflared")), segments: vec![] };
    let c = CloudflaredManager::start_tunnel_command(Some(bin.clone()), "/cfg/home.yml").unwrap();
    assert_eq!(c.binary, bin);
    assert_eq!(c.args, vec!["tunnel", "--config", "/cfg/home.yml", "run"]);
    let t = CloudflaredManager::start_tunnel_with_token_command(Some(bin.clone()), "eyJhIjoidGVzdCJ9").unwrap();
    assert_eq!(t.args, vec!["tunnel", "run", "--token", "eyJhIjoidGVzdCJ9"]);
    let missing = "cloudflared binary not found. Please install it first.".to_string();
    assert_eq!(CloudflaredManager::start_tunnel_command(None, "x"), Err(missing.clone()));
    assert_eq!(CloudflaredManager::start_tunnel_with_token_command(None, "x"), Err(missing));
}

#[test]
fn held_processes_follow_start_stop_and_exit() {
    let mut m = CloudflaredManager::new();
    assert!(!m.holds_process("a"));
    m.record_started_at("a", 1, Timestamp { secs: 1, nanos: 0 });
    m.record_started_at("b", 2, Timestamp { secs: 1, nanos: 0 });
    assert!(m.holds_process("a"));
    assert!(m.holds_process("b"));
    m.record_stopped("a");
    assert!(!m.holds_process("a"));
    assert!(m.holds_process("b"));
    assert!(m.record_process_check("b", ProcessCheck::Exited));
    assert!(!m.holds_process("b"));
}

#[test]
fn live_check_of_held_process_keeps_it_running() {
    let mut m = CloudflaredManager::new();
    m.record_started_at("a", 7, Timestamp { secs: 3, nanos: 4 });
    let before = m.get_status("a").unwrap();
    assert!(!m.record_process_check("a", ProcessCheck::StillRunning));
    let after = m.get_status("a").unwrap();
    assert!(after.running);
    assert_eq!(after, before);
    assert!(m.holds_process("a"));
}

#[test]
fn path_search_is_for_cloudflared() {
    assert_eq!(tunnelforge::cloudflared::path_program_name(), "cloudflared");
}
