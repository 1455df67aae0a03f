# tunnelforge

The logic of TunnelForge, a desktop manager for Cloudflare Tunnel, as a library verified
with Verus.

- `src/config.rs`: the stored configuration (tunnels and their services), file names and
  paths, the cloudflared config document of a tunnel and its YAML, quick-tunnel arguments.
- `src/tunnels.rs`: the commands on the configuration (create, delete, add and remove a
  service, how a tunnel starts, which tunnels start with the application).
- `src/cloudflared.rs`: the status of every tunnel's process, the download URL and path of
  cloudflared, the command lines that start it.
- `src/quick_tunnel.rs`: the quick tunnel, and finding its public address in cloudflared's
  output.
- `src/yaml.rs`: YAML values (text, lists, ordered mappings) and their serialization.
- `src/laws.rs`: properties that relate several operations.
- `src/text.rs`, `src/path.rs`: decimal numbers, character search, paths as segments.

`app/` holds the parts that touch the disk, the network and processes, and a small
command-line front end.
