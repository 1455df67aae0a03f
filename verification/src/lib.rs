pub mod text;
pub mod path;
pub mod config;
pub mod tunnels;
pub mod cloudflared;
pub mod quick_tunnel;
pub mod laws;
pub mod yaml;
