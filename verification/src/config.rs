use vstd::prelude::*;
use vstd::string::StringExecFns;

use std::path::PathBuf;

use crate::path::{FsPath, FsPathView};
use crate::text::{decimal, string_from_chars, u16_to_decimal};
use crate::yaml::{entries_view, items_view, yaml_text, yaml_to_string, Yaml, YamlView};

verus! {

/// The view of an optional string.
pub open spec fn opt_str_view(o: Option<String>) -> Option<Seq<char>> {
    match o {
        Some(s) => Some(s@),
        None => None,
    }
}

/// A copy of an optional string.
pub fn copy_opt_string(o: &Option<String>) -> (r: Option<String>)
    ensures
        opt_str_view(r) == opt_str_view(*o),
{
    match o {
        Some(s) => Some(s.clone()),
        None => None,
    }
}

/// Whether two strings hold the same characters.
pub fn str_equals(a: &str, b: &str) -> (r: bool)
    ensures
        r == (a@ == b@),
{
    let x = String::from_str(a);
    let y = String::from_str(b);
    x.eq(&y)
}

/// A single ingress rule mapping a hostname to a local service.
#[allow(non_snake_case)]
#[derive(Debug, Clone, PartialEq)]
pub struct IngressRule {
    pub hostname: String,
    pub service: String,
    pub originRequest: Option<OriginRequest>,
}

/// Per-origin options of an ingress rule.
#[allow(non_snake_case)]
#[derive(Debug, Clone, PartialEq)]
pub struct OriginRequest {
    pub httpHostHeader: Option<String>,
    pub originServerName: Option<String>,
    pub connectTimeout: Option<String>,
    pub noTLSVerify: Option<bool>,
}

/// A tunnel configuration with all its services.
#[derive(Debug, Clone, PartialEq)]
pub struct TunnelConfig {
    pub name: String,
    pub credentials_file: Option<String>,
    pub token: Option<String>,
    pub ingress: Vec<IngressRule>,
    pub warp_routing: Option<bool>,
    pub metrics: Option<String>,
}

/// App-wide settings and the store of tunnels.
#[derive(Debug, Clone, PartialEq)]
pub struct AppConfig {
    pub tunnels: Vec<TunnelDefinition>,
    pub cloudflare_token: Option<String>,
    pub auto_start: bool,
    pub minimize_to_tray: bool,
    pub version: String,
}

/// A tunnel as the user defined it.
#[derive(Debug, Clone, PartialEq)]
pub struct TunnelDefinition {
    pub id: String,
    pub name: String,
    pub token: Option<String>,
    pub credentials_file: Option<String>,
    pub services: Vec<ServiceMapping>,
    pub auto_start: bool,
}

/// One local service exposed through a tunnel.
#[derive(Debug, Clone, PartialEq)]
pub struct ServiceMapping {
    pub id: String,
    pub hostname: String,
    /// http, https, tcp, udp, ssh or rdp
    pub protocol: String,
    /// localhost, 127.0.0.1, 192.168.1.x
    pub local_host: String,
    pub local_port: u16,
    pub description: String,
}

/// The mathematical value of a [`ServiceMapping`].
pub struct ServiceMappingView {
    pub id: Seq<char>,
    pub hostname: Seq<char>,
    pub protocol: Seq<char>,
    pub local_host: Seq<char>,
    pub local_port: u16,
    pub description: Seq<char>,
}

/// The mathematical value of a [`TunnelDefinition`].
pub struct TunnelDefinitionView {
    pub id: Seq<char>,
    pub name: Seq<char>,
    pub token: Option<Seq<char>>,
    pub credentials_file: Option<Seq<char>>,
    pub services: Seq<ServiceMappingView>,
    pub auto_start: bool,
}

/// The mathematical value of an [`AppConfig`].
pub struct AppConfigView {
    pub tunnels: Seq<TunnelDefinitionView>,
    pub cloudflare_token: Option<Seq<char>>,
    pub auto_start: bool,
    pub minimize_to_tray: bool,
    pub version: Seq<char>,
}

impl View for ServiceMapping {
    type V = ServiceMappingView;

    open spec fn view(&self) -> ServiceMappingView {
        ServiceMappingView {
            id: self.id@,
            hostname: self.hostname@,
            protocol: self.protocol@,
            local_host: self.local_host@,
            local_port: self.local_port,
            description: self.description@,
        }
    }
}

/// The views of a sequence of services.
pub open spec fn services_view(s: Seq<ServiceMapping>) -> Seq<ServiceMappingView> {
    s.map_values(|m: ServiceMapping| m@)
}

impl View for TunnelDefinition {
    type V = TunnelDefinitionView;

    open spec fn view(&self) -> TunnelDefinitionView {
        TunnelDefinitionView {
            id: self.id@,
            name: self.name@,
            token: opt_str_view(self.token),
            credentials_file: opt_str_view(self.credentials_file),
            services: services_view(self.services@),
            auto_start: self.auto_start,
        }
    }
}

/// The views of a sequence of tunnels.
pub open spec fn tunnels_view(s: Seq<TunnelDefinition>) -> Seq<TunnelDefinitionView> {
    s.map_values(|t: TunnelDefinition| t@)
}

impl View for AppConfig {
    type V = AppConfigView;

    open spec fn view(&self) -> AppConfigView {
        AppConfigView {
            tunnels: tunnels_view(self.tunnels@),
            cloudflare_token: opt_str_view(self.cloudflare_token),
            auto_start: self.auto_start,
            minimize_to_tray: self.minimize_to_tray,
            version: self.version@,
        }
    }
}

impl ServiceMapping {
    /// A field-by-field copy.
    pub fn duplicate(&self) -> (r: ServiceMapping)
        ensures
            r@ == self@,
    {
        ServiceMapping {
            id: self.id.clone(),
            hostname: self.hostname.clone(),
            protocol: self.protocol.clone(),
            local_host: self.local_host.clone(),
            local_port: self.local_port,
            description: self.description.clone(),
        }
    }
}

/// A copy of a list of services.
pub fn copy_services(services: &Vec<ServiceMapping>) -> (r: Vec<ServiceMapping>)
    ensures
        services_view(r@) == services_view(services@),
{
    let mut r: Vec<ServiceMapping> = Vec::new();
    let n = services.len();
    for i in 0..n
        invariant
            n == services@.len(),
            services_view(r@) =~= services_view(services@).take(i as int),
    {
        r.push(services[i].duplicate());
        assert(services_view(services@).take(i + 1) =~= services_view(services@).take(
            i as int,
        ).push(services@[i as int]@));
    }
    assert(services_view(services@).take(n as int) =~= services_view(services@));
    r
}

impl TunnelDefinition {
    /// A field-by-field copy.
    pub fn duplicate(&self) -> (r: TunnelDefinition)
        ensures
            r@ == self@,
    {
        TunnelDefinition {
            id: self.id.clone(),
            name: self.name.clone(),
            token: copy_opt_string(&self.token),
            credentials_file: copy_opt_string(&self.credentials_file),
            services: copy_services(&self.services),
            auto_start: self.auto_start,
        }
    }
}

/// The settings a fresh installation starts with.
pub open spec fn default_config_view() -> AppConfigView {
    AppConfigView {
        tunnels: Seq::empty(),
        cloudflare_token: None,
        auto_start: false,
        minimize_to_tray: true,
        version: "0.1.0"@,
    }
}

impl Default for AppConfig {
    fn default() -> (c: AppConfig)
        ensures
            c@ == default_config_view(),
    {
        let c = AppConfig {
            tunnels: Vec::new(),
            cloudflare_token: None,
            auto_start: false,
            minimize_to_tray: true,
            version: String::from_str("0.1.0"),
        };
        assert(c@.tunnels =~= Seq::<TunnelDefinitionView>::empty());
        c
    }
}


/// Whether `c` is alphanumeric in the sense of Unicode, as `char::is_alphanumeric` decides.
pub uninterp spec fn is_alphanumeric_char(c: char) -> bool;

/// Whether `c` is an ASCII letter or digit.
pub open spec fn is_ascii_alphanumeric_char(c: char) -> bool {
    ('a' <= c && c <= 'z') || ('A' <= c && c <= 'Z') || ('0' <= c && c <= '9')
}

/// Calls `char::is_alphanumeric`. The contract names its result and states what std
/// documents of ASCII characters: the letters and digits are alphanumeric, no other ASCII
/// character is. What it answers for other characters follows Unicode's tables and is left
/// to the name.
#[verifier::external_body]
fn char_is_alphanumeric(c: char) -> (r: bool)
    ensures
        r == is_alphanumeric_char(c),
        (c as u32) < 128 ==> (r <==> is_ascii_alphanumeric_char(c)),
{
    c.is_alphanumeric()
}

/// Whether `c` is alphanumeric: among ASCII characters exactly the letters and digits, beyond
/// ASCII as Unicode's tables say.
pub open spec fn char_alphanumeric(c: char) -> bool {
    if (c as u32) < 128 {
        is_ascii_alphanumeric_char(c)
    } else {
        is_alphanumeric_char(c)
    }
}

/// The character that stands for `c` in a file name.
pub open spec fn sanitize_char(c: char) -> char {
    if char_alphanumeric(c) || c == '-' || c == '_' {
        c
    } else {
        '_'
    }
}

/// The name with every character that is neither alphanumeric, `-` nor `_` replaced by `_`.
pub open spec fn sanitized(name: Seq<char>) -> Seq<char> {
    name.map_values(|c: char| sanitize_char(c))
}

/// Turns a tunnel name into a safe file name: each character that is not alphanumeric,
/// `-` or `_` becomes `_`.
pub fn sanitize_name(name: &str) -> (r: String)
    ensures
        r@ == sanitized(name@),
{
    broadcast use vstd::string::group_string_axioms;
    let mut out: Vec<char> = Vec::new();
    for c in it: name.chars()
        invariant
            it.seq() == name@,
            out@ == sanitized(name@).take(it.index() as int),
    {
        let keep = char_is_alphanumeric(c) || c == '-' || c == '_';
        if keep {
            out.push(c);
        } else {
            out.push('_');
        }
    }
    string_from_chars(out)
}


/// The address cloudflared forwards a service to: the scheme follows the protocol
/// (`rdp` goes over `tcp`, anything unknown over `http`), `ssh` always targets localhost.
pub open spec fn spec_service_url(protocol: Seq<char>, host: Seq<char>, port: u16) -> Seq<char> {
    let p = decimal(port as nat);
    if protocol == "tcp"@ {
        "tcp://"@ + host + ":"@ + p
    } else if protocol == "udp"@ {
        "udp://"@ + host + ":"@ + p
    } else if protocol == "ssh"@ {
        "ssh://localhost:"@ + p
    } else if protocol == "rdp"@ {
        "tcp://"@ + host + ":"@ + p
    } else if protocol == "https"@ {
        "https://"@ + host + ":"@ + p
    } else {
        "http://"@ + host + ":"@ + p
    }
}

/// The local address of a service, as the tunnel's ingress names it.
pub fn service_url(service: &ServiceMapping) -> (url: String)
    ensures
        url@ == spec_service_url(service.protocol@, service.local_host@, service.local_port),
{
    let protocol = service.protocol.as_str();
    let host = service.local_host.as_str();
    let port = u16_to_decimal(service.local_port);
    let scheme = if str_equals(protocol, "tcp") {
        String::from_str("tcp://")
    } else if str_equals(protocol, "udp") {
        String::from_str("udp://")
    } else if str_equals(protocol, "ssh") {
        return String::from_str("ssh://localhost:").concat(port.as_str());
    } else if str_equals(protocol, "rdp") {
        String::from_str("tcp://")
    } else if str_equals(protocol, "https") {
        String::from_str("https://")
    } else {
        String::from_str("http://")
    };
    scheme.concat(host).concat(":").concat(port.as_str())
}

/// The service a quick tunnel exposes: `tcp` and `https` keep their scheme, anything else
/// is served over `http`; the host is always localhost.
pub open spec fn spec_quick_service(protocol: Seq<char>, port: u16) -> Seq<char> {
    let p = decimal(port as nat);
    if protocol == "tcp"@ {
        "tcp://localhost:"@ + p
    } else if protocol == "https"@ {
        "https://localhost:"@ + p
    } else {
        "http://localhost:"@ + p
    }
}

/// The command-line arguments that start a quick tunnel.
pub open spec fn spec_quick_tunnel_args(local_port: u16, protocol: Seq<char>) -> Seq<Seq<char>> {
    seq!["tunnel"@, "--url"@, spec_quick_service(protocol, local_port)]
}

/// The views of a list of strings.
pub open spec fn strings_view(v: Seq<String>) -> Seq<Seq<char>> {
    v.map_values(|s: String| s@)
}

/// The cloudflared arguments for a quick tunnel (trycloudflare.com, no account needed).
pub fn generate_quick_tunnel_args(local_port: u16, protocol: &str) -> (args: Vec<String>)
    ensures
        strings_view(args@) == spec_quick_tunnel_args(local_port, protocol@),
{
    let port = u16_to_decimal(local_port);
    let service = if str_equals(protocol, "tcp") {
        String::from_str("tcp://localhost:").concat(port.as_str())
    } else if str_equals(protocol, "https") {
        String::from_str("https://localhost:").concat(port.as_str())
    } else {
        String::from_str("http://localhost:").concat(port.as_str())
    };
    let mut args: Vec<String> = Vec::new();
    args.push(String::from_str("tunnel"));
    args.push(String::from_str("--url"));
    args.push(service);
    assert(strings_view(args@) =~= spec_quick_tunnel_args(local_port, protocol@));
    args
}


/// The named tunnel and its credentials file, written at the top of a cloudflared config.
#[derive(Debug, Clone, PartialEq)]
pub struct TunnelCredentials {
    pub tunnel: String,
    pub credentials_file: String,
}

/// One entry of a cloudflared ingress list; the catch-all entry has no hostname.
#[derive(Debug, Clone, PartialEq)]
pub struct IngressEntry {
    pub hostname: Option<String>,
    pub service: String,
}

/// The content of a cloudflared `config.yml`, key by key, in the order it is written:
/// `tunnel` and `credentials-file` (when present), `ingress`, `metrics`.
#[derive(Debug, Clone, PartialEq)]
pub struct CloudflaredConfigDocument {
    pub credentials: Option<TunnelCredentials>,
    pub ingress: Vec<IngressEntry>,
    pub metrics: String,
}

pub struct TunnelCredentialsView {
    pub tunnel: Seq<char>,
    pub credentials_file: Seq<char>,
}

pub struct IngressEntryView {
    pub hostname: Option<Seq<char>>,
    pub service: Seq<char>,
}

pub struct CloudflaredConfigDocumentView {
    pub credentials: Option<TunnelCredentialsView>,
    pub ingress: Seq<IngressEntryView>,
    pub metrics: Seq<char>,
}

impl View for IngressEntry {
    type V = IngressEntryView;

    open spec fn view(&self) -> IngressEntryView {
        IngressEntryView { hostname: opt_str_view(self.hostname), service: self.service@ }
    }
}

impl View for CloudflaredConfigDocument {
    type V = CloudflaredConfigDocumentView;

    open spec fn view(&self) -> CloudflaredConfigDocumentView {
        CloudflaredConfigDocumentView {
            credentials: match self.credentials {
                Some(c) => Some(
                    TunnelCredentialsView { tunnel: c.tunnel@, credentials_file: c.credentials_file@ },
                ),
                None => None,
            },
            ingress: self.ingress@.map_values(|e: IngressEntry| e@),
            metrics: self.metrics@,
        }
    }
}

/// The address cloudflared serves its local metrics on.
pub open spec fn metrics_address() -> Seq<char> {
    "127.0.0.1:35117"@
}

/// The ingress entry of one service.
pub open spec fn spec_ingress_entry(s: ServiceMappingView) -> IngressEntryView {
    IngressEntryView {
        hostname: Some(s.hostname),
        service: spec_service_url(s.protocol, s.local_host, s.local_port),
    }
}

/// The last ingress entry, which cloudflared requires: everything else is answered 404.
pub open spec fn catch_all_entry() -> IngressEntryView {
    IngressEntryView { hostname: None, service: "http_status:404"@ }
}

/// The cloudflared configuration of a tunnel: one ingress entry per service in order, then
/// the catch-all; the tunnel's name and credentials file when it has one; the metrics address.
/// A token plays no part: token tunnels are configured remotely.
pub open spec fn spec_cloudflared_config(t: TunnelDefinitionView) -> CloudflaredConfigDocumentView {
    CloudflaredConfigDocumentView {
        credentials: match t.credentials_file {
            Some(c) => Some(TunnelCredentialsView { tunnel: t.name, credentials_file: c }),
            None => None,
        },
        ingress: t.services.map_values(|s: ServiceMappingView| spec_ingress_entry(s)).push(
            catch_all_entry(),
        ),
        metrics: metrics_address(),
    }
}

/// Generates the cloudflared `config.yml` content for a tunnel definition.
pub fn generate_cloudflared_config(tunnel: &TunnelDefinition) -> (doc: CloudflaredConfigDocument)
    ensures
        doc@ == spec_cloudflared_config(tunnel@),
{
    let mut ingress: Vec<IngressEntry> = Vec::new();
    let n = tunnel.services.len();
    let ghost wanted = tunnel@.services.map_values(|s: ServiceMappingView| spec_ingress_entry(s));
    for i in 0..n
        invariant
            n == tunnel.services@.len(),
            wanted == tunnel@.services.map_values(|s: ServiceMappingView| spec_ingress_entry(s)),
            ingress@.map_values(|e: IngressEntry| e@) =~= wanted.take(i as int),
    {
        let service = &tunnel.services[i];
        let entry = IngressEntry { hostname: Some(service.hostname.clone()), service: service_url(service) };
        ingress.push(entry);
        assert(wanted.take(i + 1) =~= wanted.take(i as int).push(spec_ingress_entry(service@)));
    }
    assert(wanted.take(n as int) =~= wanted);
    ingress.push(IngressEntry { hostname: None, service: String::from_str("http_status:404") });
    let credentials = match &tunnel.credentials_file {
        Some(creds) => Some(
            TunnelCredentials { tunnel: tunnel.name.clone(), credentials_file: creds.clone() },
        ),
        None => None,
    };
    let doc = CloudflaredConfigDocument {
        credentials,
        ingress,
        metrics: String::from_str("127.0.0.1:35117"),
    };
    assert(doc@.ingress =~= spec_cloudflared_config(tunnel@).ingress);
    doc
}


/// A YAML text value.
pub open spec fn ytext(s: Seq<char>) -> YamlView {
    YamlView::Text(s)
}

/// The YAML mapping of one ingress entry: `hostname` when it has one, then `service`.
pub open spec fn spec_rule_yaml(e: IngressEntryView) -> YamlView {
    match e.hostname {
        Some(h) => YamlView::Dict(
            seq![(ytext("hostname"@), ytext(h)), (ytext("service"@), ytext(e.service))],
        ),
        None => YamlView::Dict(seq![(ytext("service"@), ytext(e.service))]),
    }
}

/// The entries that name the tunnel and its credentials file, when the document has them.
pub open spec fn spec_credentials_yaml(c: Option<TunnelCredentialsView>) -> Seq<(YamlView, YamlView)> {
    match c {
        Some(c) => seq![
            (ytext("tunnel"@), ytext(c.tunnel)),
            (ytext("credentials-file"@), ytext(c.credentials_file)),
        ],
        None => Seq::empty(),
    }
}

/// The YAML mapping of a cloudflared config, in the order cloudflared's keys are written:
/// `tunnel` and `credentials-file` (when present), `ingress` (one mapping per entry, in
/// order), `metrics`.
pub open spec fn spec_config_yaml(d: CloudflaredConfigDocumentView) -> YamlView {
    YamlView::Dict(
        spec_credentials_yaml(d.credentials) + seq![
            (ytext("ingress"@), YamlView::List(d.ingress.map_values(|e: IngressEntryView| spec_rule_yaml(e)))),
            (ytext("metrics"@), ytext(d.metrics)),
        ],
    )
}

/// A text value holding a copy of `s`.
fn text_of(s: &str) -> (y: Yaml)
    ensures
        y@ == ytext(s@),
{
    Yaml::text(s.to_string())
}

/// The YAML mapping of one ingress entry.
fn rule_yaml(e: &IngressEntry) -> (y: Yaml)
    ensures
        y@ == spec_rule_yaml(e@),
{
    let mut entries: Vec<(Yaml, Yaml)> = Vec::new();
    if let Some(h) = &e.hostname {
        entries.push((text_of("hostname"), text_of(h.as_str())));
    }
    entries.push((text_of("service"), text_of(e.service.as_str())));
    let ghost ev = entries_view(entries@);
    assert(YamlView::Dict(ev) == spec_rule_yaml(e@)) by {
        match e.hostname {
            Some(h) => assert(ev =~= seq![(ytext("hostname"@), ytext(h@)), (ytext("service"@), ytext(e.service@))]),
            None => assert(ev =~= seq![(ytext("service"@), ytext(e.service@))]),
        }
    }
    Yaml::dict(entries)
}

/// The YAML mapping that cloudflared reads as its config.
pub fn cloudflared_config_yaml(doc: &CloudflaredConfigDocument) -> (y: Yaml)
    ensures
        y@ == spec_config_yaml(doc@),
{
    let mut entries: Vec<(Yaml, Yaml)> = Vec::new();
    if let Some(c) = &doc.credentials {
        entries.push((text_of("tunnel"), text_of(c.tunnel.as_str())));
        entries.push((text_of("credentials-file"), text_of(c.credentials_file.as_str())));
    }
    let ghost head = entries_view(entries@);
    assert(head =~= spec_credentials_yaml(doc@.credentials));
    let ghost wanted = doc@.ingress.map_values(|e: IngressEntryView| spec_rule_yaml(e));
    let mut rules: Vec<Yaml> = Vec::new();
    let n = doc.ingress.len();
    for i in 0..n
        invariant
            n == doc.ingress@.len(),
            wanted == doc@.ingress.map_values(|e: IngressEntryView| spec_rule_yaml(e)),
            items_view(rules@) =~= wanted.take(i as int),
    {
        let r = rule_yaml(&doc.ingress[i]);
        rules.push(r);
        assert(wanted.take(i + 1) =~= wanted.take(i as int).push(spec_rule_yaml(doc.ingress@[i as int]@)));
    }
    assert(wanted.take(n as int) =~= wanted);
    entries.push((text_of("ingress"), Yaml::list(rules)));
    entries.push((text_of("metrics"), text_of(doc.metrics.as_str())));
    assert(entries_view(entries@) =~= head + seq![
        (ytext("ingress"@), YamlView::List(wanted)),
        (ytext("metrics"@), ytext(doc@.metrics)),
    ]);
    Yaml::dict(entries)
}

/// The text written in place of a config that could not be serialized.
pub open spec fn config_error_text() -> Seq<char> {
    "# Error generating config"@
}

/// The config text: the serialized YAML when serialization succeeded, else the error line.
pub fn config_text_or_error(text: Option<String>) -> (s: String)
    ensures
        s@ == (match text {
            Some(t) => t@,
            None => config_error_text(),
        }),
{
    match text {
        Some(t) => t,
        None => String::from_str("# Error generating config"),
    }
}

/// Renders the cloudflared `config.yml` of a tunnel definition: the YAML text of its config.
/// Serialization of such a value cannot fail, so the error line never stands in for it.
pub fn render_cloudflared_config(tunnel: &TunnelDefinition) -> (s: String)
    ensures
        s@ == yaml_text(spec_config_yaml(spec_cloudflared_config(tunnel@))),
{
    let doc = generate_cloudflared_config(tunnel);
    let y = cloudflared_config_yaml(&doc);
    config_text_or_error(yaml_to_string(&y))
}

/// Calls `dirs::config_dir`, the user's configuration directory. What it returns depends on
/// the operating system and the environment, so nothing is stated of it.
#[verifier::external_body]
fn user_config_dir() -> (dir: Option<PathBuf>) {
    dirs::config_dir()
}

/// The application's configuration directory below a base directory (the current directory
/// when the system reports none).
pub open spec fn spec_config_dir(base: Option<PathBuf>) -> FsPathView {
    FsPathView { root: base, segments: seq!["tunnelforge"@] }
}

/// The path below a directory.
pub open spec fn below(dir: FsPathView, name: Seq<char>) -> FsPathView {
    FsPathView { root: dir.root, segments: dir.segments.push(name) }
}

/// The application's configuration directory for a given user configuration directory.
pub fn config_dir_from(base: Option<PathBuf>) -> (dir: FsPath)
    ensures
        dir@ == spec_config_dir(base),
{
    let dir = FsPath::from_root(base).join(String::from_str("tunnelforge"));
    assert(dir@.segments =~= seq!["tunnelforge"@]);
    dir
}

/// The application's configuration directory, below the user's configuration directory.
/// Creating it on disk is left to the caller.
pub fn get_config_dir() -> (dir: FsPath)
    ensures
        exists|base: Option<PathBuf>| dir@ == #[trigger] spec_config_dir(base),
{
    let base = user_config_dir();
    let ghost b = base;
    let dir = config_dir_from(base);
    assert(dir@ == spec_config_dir(b));
    dir
}

/// The path of the application's own configuration file.
pub fn get_config_file_path() -> (path: FsPath)
    ensures
        exists|base: Option<PathBuf>|
            path@ == below(#[trigger] spec_config_dir(base), "config.json"@),
{
    let dir = get_config_dir();
    let ghost base = choose|base: Option<PathBuf>| dir@ == spec_config_dir(base);
    let path = dir.join(String::from_str("config.json"));
    assert(path@ == below(spec_config_dir(base), "config.json"@));
    path
}

/// The file name of a tunnel's cloudflared config: its sanitized name with `.yml`.
pub open spec fn spec_tunnel_config_file_name(tunnel_name: Seq<char>) -> Seq<char> {
    sanitized(tunnel_name) + ".yml"@
}

/// The file name of a tunnel's cloudflared config.
pub fn tunnel_config_file_name(tunnel_name: &str) -> (name: String)
    ensures
        name@ == spec_tunnel_config_file_name(tunnel_name@),
{
    sanitize_name(tunnel_name).concat(".yml")
}

/// The path of a tunnel's cloudflared config file, in the `tunnels` directory below the
/// configuration directory. Creating that directory is left to the caller.
pub fn get_tunnel_config_path(tunnel_name: &str) -> (path: FsPath)
    ensures
        exists|base: Option<PathBuf>|
            path@ == below(
                below(#[trigger] spec_config_dir(base), "tunnels"@),
                spec_tunnel_config_file_name(tunnel_name@),
            ),
{
    let dir = get_config_dir();
    let ghost base = choose|base: Option<PathBuf>| dir@ == spec_config_dir(base);
    let path = dir.join(String::from_str("tunnels")).join(tunnel_config_file_name(tunnel_name));
    assert(path@ == below(
        below(spec_config_dir(base), "tunnels"@),
        spec_tunnel_config_file_name(tunnel_name@),
    ));
    path
}

} // verus!
