use vstd::prelude::*;
use vstd::string::StringExecFns;

use crate::config::{
    opt_str_view, str_equals, AppConfig, AppConfigView, ServiceMapping,
    ServiceMappingView, TunnelDefinition, TunnelDefinitionView, tunnels_view, services_view,
};

verus! {

/// `i` is the first position of a tunnel with the given id.
pub open spec fn is_first_with_id(ts: Seq<TunnelDefinitionView>, id: Seq<char>, i: int) -> bool {
    &&& 0 <= i < ts.len()
    &&& ts[i].id == id
    &&& forall|j: int| 0 <= j < i ==> ts[j].id != id
}

/// The position of the first tunnel with the given id, if any has it.
pub open spec fn tunnel_index(ts: Seq<TunnelDefinitionView>, id: Seq<char>) -> Option<int> {
    if exists|i: int| is_first_with_id(ts, id, i) {
        Some(choose|i: int| is_first_with_id(ts, id, i))
    } else {
        None
    }
}

/// There is only one first position.
pub proof fn lemma_first_with_id_unique(ts: Seq<TunnelDefinitionView>, id: Seq<char>, i: int, k: int)
    requires
        is_first_with_id(ts, id, i),
        is_first_with_id(ts, id, k),
    ensures
        i == k,
{
}

/// The first tunnel with an id is found exactly where `is_first_with_id` says.
pub proof fn lemma_tunnel_index_is(ts: Seq<TunnelDefinitionView>, id: Seq<char>, i: int)
    requires
        is_first_with_id(ts, id, i),
    ensures
        tunnel_index(ts, id) == Some(i),
{
    let k = choose|k: int| is_first_with_id(ts, id, k);
    lemma_first_with_id_unique(ts, id, i, k);
}

/// A list in which no tunnel has the id has no position for it.
pub proof fn lemma_tunnel_index_none(ts: Seq<TunnelDefinitionView>, id: Seq<char>)
    requires
        forall|j: int| 0 <= j < ts.len() ==> ts[j].id != id,
    ensures
        tunnel_index(ts, id) is None,
{
}

impl AppConfig {
    /// The position of the first tunnel with the given id.
    pub fn find_tunnel(&self, tunnel_id: &str) -> (r: Option<usize>)
        ensures
            r matches Some(i) ==> tunnel_index(self@.tunnels, tunnel_id@) == Some(i as int),
            r is None ==> tunnel_index(self@.tunnels, tunnel_id@) is None,
    {
        let n = self.tunnels.len();
        for i in 0..n
            invariant
                n == self.tunnels@.len(),
                forall|j: int| 0 <= j < i ==> self@.tunnels[j].id != tunnel_id@,
        {
            if str_equals(self.tunnels[i].id.as_str(), tunnel_id) {
                proof {
                    lemma_tunnel_index_is(self@.tunnels, tunnel_id@, i as int);
                }
                return Some(i);
            }
        }
        proof {
            lemma_tunnel_index_none(self@.tunnels, tunnel_id@);
        }
        None
    }
}


/// Some tunnel in the list has the name.
pub open spec fn has_tunnel_named(ts: Seq<TunnelDefinitionView>, name: Seq<char>) -> bool {
    exists|i: int| 0 <= i < ts.len() && #[trigger] ts[i].name == name
}

/// The error a duplicate tunnel name gets.
pub open spec fn duplicate_name_message(name: Seq<char>) -> Seq<char> {
    "A tunnel named '"@ + name + "' already exists"@
}

/// A tunnel as it is first created: no credentials file, no services.
pub open spec fn new_tunnel_view(
    id: Seq<char>,
    name: Seq<char>,
    token: Option<Seq<char>>,
    auto_start: bool,
) -> TunnelDefinitionView {
    TunnelDefinitionView {
        id,
        name,
        token,
        credentials_file: None,
        services: Seq::empty(),
        auto_start,
    }
}

/// The configuration with another list of tunnels.
pub open spec fn with_tunnels(c: AppConfigView, ts: Seq<TunnelDefinitionView>) -> AppConfigView {
    AppConfigView {
        tunnels: ts,
        cloudflare_token: c.cloudflare_token,
        auto_start: c.auto_start,
        minimize_to_tray: c.minimize_to_tray,
        version: c.version,
    }
}

/// Creating a tunnel: refused when the name is taken, else the new tunnel is appended.
pub open spec fn spec_create_tunnel(
    c: AppConfigView,
    id: Seq<char>,
    name: Seq<char>,
    token: Option<Seq<char>>,
    auto_start: bool,
) -> (AppConfigView, Result<TunnelDefinitionView, Seq<char>>) {
    if has_tunnel_named(c.tunnels, name) {
        (c, Err(duplicate_name_message(name)))
    } else {
        let t = new_tunnel_view(id, name, token, auto_start);
        (with_tunnels(c, c.tunnels.push(t)), Ok(t))
    }
}

/// The view of a command's outcome that hands back a tunnel.
pub open spec fn tunnel_result_view(r: Result<TunnelDefinition, String>) -> Result<
    TunnelDefinitionView,
    Seq<char>,
> {
    match r {
        Ok(t) => Ok(t@),
        Err(e) => Err(e@),
    }
}

/// The view of a command's outcome that hands back nothing.
pub open spec fn unit_result_view(r: Result<(), String>) -> Result<(), Seq<char>> {
    match r {
        Ok(()) => Ok(()),
        Err(e) => Err(e@),
    }
}

impl AppConfig {
    /// Whether some tunnel already has the name.
    pub fn has_tunnel_named(&self, name: &str) -> (r: bool)
        ensures
            r == has_tunnel_named(self@.tunnels, name@),
    {
        let n = self.tunnels.len();
        for i in 0..n
            invariant
                n == self.tunnels@.len(),
                forall|j: int| 0 <= j < i ==> self@.tunnels[j].name != name@,
        {
            if str_equals(self.tunnels[i].name.as_str(), name) {
                assert(self@.tunnels[i as int].name == name@);
                return true;
            }
        }
        false
    }
}

/// Creates a tunnel with the given id, unless a tunnel of that name exists (the
/// `create_tunnel` command, without generating the id and loading and saving the
/// configuration around it).
pub fn create_tunnel(
    config: &mut AppConfig,
    id: String,
    name: String,
    token: Option<String>,
    auto_start: bool,
) -> (r: Result<TunnelDefinition, String>)
    ensures
        (final(config)@, tunnel_result_view(r)) == spec_create_tunnel(
            old(config)@,
            id@,
            name@,
            opt_str_view(token),
            auto_start,
        ),
{
    if config.has_tunnel_named(name.as_str()) {
        let msg = String::from_str("A tunnel named '").concat(name.as_str()).concat(
            "' already exists",
        );
        return Err(msg);
    }
    let tunnel = TunnelDefinition {
        id,
        name,
        token,
        credentials_file: None,
        services: Vec::new(),
        auto_start,
    };
    assert(tunnel@.services =~= Seq::<ServiceMappingView>::empty());
    let stored = tunnel.duplicate();
    let ghost before = config.tunnels@;
    config.tunnels.push(stored);
    assert(tunnels_view(config.tunnels@) =~= tunnels_view(before).push(tunnel@));
    Ok(tunnel)
}

/// A tunnel kept by deleting the tunnels with the id.
pub open spec fn id_differs(id: Seq<char>) -> spec_fn(TunnelDefinitionView) -> bool {
    |t: TunnelDefinitionView| t.id != id
}

/// Deleting a tunnel: every tunnel with the id leaves the list; the name of the first of
/// them is handed back so that its process can be stopped.
pub open spec fn spec_delete_tunnel(c: AppConfigView, id: Seq<char>) -> (
    AppConfigView,
    Option<Seq<char>>,
) {
    (
        with_tunnels(c, c.tunnels.filter(id_differs(id))),
        match tunnel_index(c.tunnels, id) {
            Some(i) => Some(c.tunnels[i].name),
            None => None,
        },
    )
}

/// Deletes the tunnels with the id (the `delete_tunnel` command, without stopping the
/// process, loading and saving). Returns the name of the tunnel to stop.
pub fn delete_tunnel(config: &mut AppConfig, tunnel_id: &str) -> (stop: Option<String>)
    ensures
        (final(config)@, opt_str_view(stop)) == spec_delete_tunnel(old(config)@, tunnel_id@),
{
    let ghost all = old(config)@.tunnels;
    let ghost keep = id_differs(tunnel_id@);
    let mut kept: Vec<TunnelDefinition> = Vec::new();
    let mut stop: Option<String> = None;
    let n = config.tunnels.len();
    for i in 0..n
        invariant
            n == config.tunnels@.len(),
            all == config@.tunnels,
            keep == id_differs(tunnel_id@),
            tunnels_view(kept@) == all.take(i as int).filter(keep),
            stop is None ==> forall|j: int| 0 <= j < i ==> all[j].id != tunnel_id@,
            stop matches Some(s) ==> exists|k: int|
                #[trigger] is_first_with_id(all, tunnel_id@, k) && s@ == all[k].name,
    {
        let t = &config.tunnels[i];
        let matches = str_equals(t.id.as_str(), tunnel_id);
        proof {
            all.take(i as int).lemma_filter_push(all[i as int], keep);
            assert(all.take(i + 1) =~= all.take(i as int).push(all[i as int]));
        }
        if matches {
            if stop.is_none() {
                assert(is_first_with_id(all, tunnel_id@, i as int));
                stop = Some(t.name.clone());
            }
        } else {
            let ghost before = kept@;
            kept.push(t.duplicate());
            assert(tunnels_view(kept@) =~= tunnels_view(before).push(t@));
        }
    }
    proof {
        assert(all.take(n as int) =~= all);
        match &stop {
            Some(s) => {
                let k = choose|k: int| is_first_with_id(all, tunnel_id@, k) && s@ == all[k].name;
                lemma_tunnel_index_is(all, tunnel_id@, k);
            },
            None => {
                lemma_tunnel_index_none(all, tunnel_id@);
            },
        }
    }
    config.tunnels = kept;
    stop
}


/// The error when no tunnel has the requested id.
pub open spec fn tunnel_not_found_message() -> Seq<char> {
    "Tunnel not found"@
}

/// The tunnel with another list of services.
pub open spec fn with_services(
    t: TunnelDefinitionView,
    services: Seq<ServiceMappingView>,
) -> TunnelDefinitionView {
    TunnelDefinitionView {
        id: t.id,
        name: t.name,
        token: t.token,
        credentials_file: t.credentials_file,
        services,
        auto_start: t.auto_start,
    }
}

/// Adding a service: it is appended to the first tunnel with the id.
pub open spec fn spec_add_service(
    c: AppConfigView,
    tunnel_id: Seq<char>,
    service: ServiceMappingView,
) -> (AppConfigView, Result<(), Seq<char>>) {
    match tunnel_index(c.tunnels, tunnel_id) {
        None => (c, Err(tunnel_not_found_message())),
        Some(i) => (
            with_tunnels(
                c,
                c.tunnels.update(i, with_services(c.tunnels[i], c.tunnels[i].services.push(service))),
            ),
            Ok(()),
        ),
    }
}

/// A service kept by removing the services with the id.
pub open spec fn service_id_differs(id: Seq<char>) -> spec_fn(ServiceMappingView) -> bool {
    |s: ServiceMappingView| s.id != id
}

/// Removing a service: the first tunnel with the id loses every service with the service id.
pub open spec fn spec_remove_service(
    c: AppConfigView,
    tunnel_id: Seq<char>,
    service_id: Seq<char>,
) -> (AppConfigView, Result<(), Seq<char>>) {
    match tunnel_index(c.tunnels, tunnel_id) {
        None => (c, Err(tunnel_not_found_message())),
        Some(i) => (
            with_tunnels(
                c,
                c.tunnels.update(
                    i,
                    with_services(c.tunnels[i], c.tunnels[i].services.filter(service_id_differs(service_id))),
                ),
            ),
            Ok(()),
        ),
    }
}

/// Adds a fully built service to the first tunnel with the id.
fn add_service_mapping(config: &mut AppConfig, tunnel_id: &str, service: ServiceMapping) -> (r:
    Result<(), String>)
    ensures
        (final(config)@, unit_result_view(r)) == spec_add_service(old(config)@, tunnel_id@, service@),
{
    match config.find_tunnel(tunnel_id) {
        None => Err(String::from_str("Tunnel not found")),
        Some(i) => {
            let ghost before = config@;
            let ghost services_before = config.tunnels@[i as int].services@;
            config.tunnels[i].services.push(service);
            proof {
                let t = before.tunnels[i as int];
                assert(services_view(config.tunnels@[i as int].services@) =~= services_view(
                    services_before,
                ).push(service@));
                assert(config@.tunnels =~= before.tunnels.update(
                    i as int,
                    with_services(t, t.services.push(service@)),
                ));
            }
            Ok(())
        },
    }
}

/// Adds a service to the first tunnel with the id (the `add_service` command, without
/// generating the service's id, loading and saving the configuration and regenerating the
/// tunnel's cloudflared config).
pub fn add_service(
    config: &mut AppConfig,
    tunnel_id: &str,
    service_id: String,
    hostname: String,
    protocol: String,
    local_host: String,
    local_port: u16,
    description: String,
) -> (r: Result<(), String>)
    ensures
        (final(config)@, unit_result_view(r)) == spec_add_service(
            old(config)@,
            tunnel_id@,
            ServiceMappingView {
                id: service_id@,
                hostname: hostname@,
                protocol: protocol@,
                local_host: local_host@,
                local_port,
                description: description@,
            },
        ),
{
    let service = ServiceMapping {
        id: service_id,
        hostname,
        protocol,
        local_host,
        local_port,
        description,
    };
    add_service_mapping(config, tunnel_id, service)
}

/// The services that remain when those with the id are removed.
fn services_without(services: &Vec<ServiceMapping>, service_id: &str) -> (r: Vec<ServiceMapping>)
    ensures
        services_view(r@) == services_view(services@).filter(service_id_differs(service_id@)),
{
    let ghost all = services_view(services@);
    let ghost keep = service_id_differs(service_id@);
    let mut kept: Vec<ServiceMapping> = Vec::new();
    let n = services.len();
    for i in 0..n
        invariant
            n == services@.len(),
            all == services_view(services@),
            keep == service_id_differs(service_id@),
            services_view(kept@) == all.take(i as int).filter(keep),
    {
        let s = &services[i];
        proof {
            all.take(i as int).lemma_filter_push(all[i as int], keep);
            assert(all.take(i + 1) =~= all.take(i as int).push(all[i as int]));
        }
        if !str_equals(s.id.as_str(), service_id) {
            let ghost before = kept@;
            kept.push(s.duplicate());
            assert(services_view(kept@) =~= services_view(before).push(s@));
        }
    }
    assert(all.take(n as int) =~= all);
    kept
}

/// Removes the services with the service id from the first tunnel with the tunnel id (the
/// `remove_service` command, without loading and saving the configuration and regenerating
/// the tunnel's cloudflared config).
pub fn remove_service(config: &mut AppConfig, tunnel_id: &str, service_id: &str) -> (r: Result<
    (),
    String,
>)
    ensures
        (final(config)@, unit_result_view(r)) == spec_remove_service(
            old(config)@,
            tunnel_id@,
            service_id@,
        ),
{
    match config.find_tunnel(tunnel_id) {
        None => Err(String::from_str("Tunnel not found")),
        Some(i) => {
            let ghost before = config@;
            let kept = services_without(&config.tunnels[i].services, service_id);
            config.tunnels[i].services = kept;
            proof {
                let t = before.tunnels[i as int];
                assert(config@.tunnels =~= before.tunnels.update(
                    i as int,
                    with_services(t, t.services.filter(service_id_differs(service_id@))),
                ));
            }
            Ok(())
        },
    }
}


/// How a tunnel is to be started: with its token (managed from the Zero Trust dashboard),
/// or from a cloudflared config file generated for it.
#[derive(Debug, Clone, PartialEq)]
pub enum StartPlan {
    WithToken { tunnel_name: String, token: String },
    WithConfigFile { tunnel: TunnelDefinition },
}

pub enum StartPlanView {
    WithToken { tunnel_name: Seq<char>, token: Seq<char> },
    WithConfigFile { tunnel: TunnelDefinitionView },
}

impl View for StartPlan {
    type V = StartPlanView;

    open spec fn view(&self) -> StartPlanView {
        match self {
            StartPlan::WithToken { tunnel_name, token } => StartPlanView::WithToken {
                tunnel_name: tunnel_name@,
                token: token@,
            },
            StartPlan::WithConfigFile { tunnel } => StartPlanView::WithConfigFile {
                tunnel: tunnel@,
            },
        }
    }
}

/// The error when a tunnel without a token has no service to route.
pub open spec fn no_services_message() -> Seq<char> {
    "No services configured for this tunnel. Add at least one service before starting."@
}

/// How a tunnel starts: a token wins; without one, a config file needs at least one service.
pub open spec fn spec_start_plan_for(t: TunnelDefinitionView) -> Result<StartPlanView, Seq<char>> {
    match t.token {
        Some(token) => Ok(StartPlanView::WithToken { tunnel_name: t.name, token }),
        None => if t.services.len() == 0 {
            Err(no_services_message())
        } else {
            Ok(StartPlanView::WithConfigFile { tunnel: t })
        },
    }
}

/// Starting the first tunnel with the id.
pub open spec fn spec_plan_tunnel_start(c: AppConfigView, tunnel_id: Seq<char>) -> Result<
    StartPlanView,
    Seq<char>,
> {
    match tunnel_index(c.tunnels, tunnel_id) {
        None => Err(tunnel_not_found_message()),
        Some(i) => spec_start_plan_for(c.tunnels[i]),
    }
}

/// The view of an outcome that hands back a start plan.
pub open spec fn plan_result_view(r: Result<StartPlan, String>) -> Result<StartPlanView, Seq<char>> {
    match r {
        Ok(p) => Ok(p@),
        Err(e) => Err(e@),
    }
}

/// The view of an outcome that hands back a string.
pub open spec fn string_result_view(r: Result<String, String>) -> Result<Seq<char>, Seq<char>> {
    match r {
        Ok(s) => Ok(s@),
        Err(e) => Err(e@),
    }
}

/// How a single tunnel is to be started.
pub fn start_plan_for(tunnel: &TunnelDefinition) -> (r: Result<StartPlan, String>)
    ensures
        plan_result_view(r) == spec_start_plan_for(tunnel@),
{
    match &tunnel.token {
        Some(token) => Ok(StartPlan::WithToken { tunnel_name: tunnel.name.clone(), token: token.clone() }),
        None => {
            if tunnel.services.len() == 0 {
                Err(
                    String::from_str(
                        "No services configured for this tunnel. Add at least one service before starting.",
                    ),
                )
            } else {
                Ok(StartPlan::WithConfigFile { tunnel: tunnel.duplicate() })
            }
        },
    }
}

/// Decides how the `start_tunnel` command starts the tunnel with the id.
pub fn plan_tunnel_start(config: &AppConfig, tunnel_id: &str) -> (r: Result<StartPlan, String>)
    ensures
        plan_result_view(r) == spec_plan_tunnel_start(config@, tunnel_id@),
{
    match config.find_tunnel(tunnel_id) {
        None => Err(String::from_str("Tunnel not found")),
        Some(i) => start_plan_for(&config.tunnels[i]),
    }
}

/// The name of the first tunnel with the id.
pub open spec fn spec_tunnel_name(c: AppConfigView, tunnel_id: Seq<char>) -> Result<Seq<char>, Seq<char>> {
    match tunnel_index(c.tunnels, tunnel_id) {
        None => Err(tunnel_not_found_message()),
        Some(i) => Ok(c.tunnels[i].name),
    }
}

/// The name of the tunnel the `stop_tunnel` command stops.
pub fn tunnel_name_for(config: &AppConfig, tunnel_id: &str) -> (r: Result<String, String>)
    ensures
        string_result_view(r) == spec_tunnel_name(config@, tunnel_id@),
{
    match config.find_tunnel(tunnel_id) {
        None => Err(String::from_str("Tunnel not found")),
        Some(i) => Ok(config.tunnels[i].name.clone()),
    }
}

/// A tunnel that starts with the application: marked for auto-start and startable.
pub open spec fn starts_automatically(t: TunnelDefinitionView) -> bool {
    t.auto_start && (t.token is Some || t.services.len() > 0)
}

/// The plan of a tunnel that starts with the application.
pub open spec fn auto_plan(t: TunnelDefinitionView) -> StartPlanView {
    match t.token {
        Some(token) => StartPlanView::WithToken { tunnel_name: t.name, token },
        None => StartPlanView::WithConfigFile { tunnel: t },
    }
}

/// The tunnels started when the application launches, in order: none unless auto-start is
/// on; then each tunnel marked for it that has a token or at least one service.
pub open spec fn spec_auto_start_plans(c: AppConfigView) -> Seq<StartPlanView> {
    if c.auto_start {
        c.tunnels.filter(|t: TunnelDefinitionView| starts_automatically(t)).map_values(
            |t: TunnelDefinitionView| auto_plan(t),
        )
    } else {
        Seq::empty()
    }
}

/// The tunnels to start when the application launches.
pub fn auto_start_plans(config: &AppConfig) -> (plans: Vec<StartPlan>)
    ensures
        plans@.map_values(|p: StartPlan| p@) == spec_auto_start_plans(config@),
{
    let mut plans: Vec<StartPlan> = Vec::new();
    if !config.auto_start {
        assert(plans@.map_values(|p: StartPlan| p@) =~= Seq::<StartPlanView>::empty());
        return plans;
    }
    let ghost all = config@.tunnels;
    let ghost pick = |t: TunnelDefinitionView| starts_automatically(t);
    let ghost plan = |t: TunnelDefinitionView| auto_plan(t);
    let n = config.tunnels.len();
    for i in 0..n
        invariant
            n == config.tunnels@.len(),
            all == config@.tunnels,
            pick == (|t: TunnelDefinitionView| starts_automatically(t)),
            plan == (|t: TunnelDefinitionView| auto_plan(t)),
            plans@.map_values(|p: StartPlan| p@) == all.take(i as int).filter(pick).map_values(plan),
    {
        let t = &config.tunnels[i];
        proof {
            all.take(i as int).lemma_filter_push(all[i as int], pick);
            assert(all.take(i + 1) =~= all.take(i as int).push(all[i as int]));
        }
        let ghost before = plans@;
        if t.auto_start {
            match &t.token {
                Some(token) => {
                    plans.push(StartPlan::WithToken { tunnel_name: t.name.clone(), token: token.clone() });
                },
                None => {
                    if t.services.len() > 0 {
                        plans.push(StartPlan::WithConfigFile { tunnel: t.duplicate() });
                    }
                },
            }
        }
        proof {
            let prev = all.take(i as int).filter(pick);
            if starts_automatically(t@) {
                assert(plans@.map_values(|p: StartPlan| p@) =~= before.map_values(|p: StartPlan| p@).push(
                    auto_plan(t@),
                ));
                assert(prev.push(t@).map_values(plan) =~= prev.map_values(plan).push(plan(t@)));
            } else {
                assert(plans@ == before);
            }
        }
    }
    assert(all.take(n as int) =~= all);
    plans
}

impl AppConfig {
    /// Updates the application settings (the `update_settings` command, without loading and
    /// saving the configuration).
    pub fn update_settings(&mut self, auto_start: bool, minimize_to_tray: bool)
        ensures
            final(self)@ == (AppConfigView {
                auto_start,
                minimize_to_tray,
                ..old(self)@
            }),
    {
        self.auto_start = auto_start;
        self.minimize_to_tray = minimize_to_tray;
    }
}

} // verus!
