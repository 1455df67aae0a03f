use vstd::prelude::*;

use crate::cloudflared::{
    alive_status, exited_message, exited_status, map_update_if_present, spec_installed, spec_resolved_binary,
    started_status, status_consistent, stopped_status, Timestamp, TunnelStatusView,
};
use crate::path::FsPathView;
use crate::config::{
    catch_all_entry, char_alphanumeric, is_ascii_alphanumeric_char, metrics_address, sanitized,
    spec_cloudflared_config, spec_ingress_entry, spec_quick_service, spec_quick_tunnel_args,
    spec_service_url, AppConfigView,
    ServiceMappingView, TunnelDefinitionView,
};
use crate::quick_tunnel::{
    ends_url, is_first_quick_url, is_url_end, quick_domain, quick_url_at, spec_quick_tunnel_url,
    url_end,
};
use crate::text::{decimal, occurs_at};
use crate::tunnels::{
    has_tunnel_named, id_differs, is_first_with_id, lemma_tunnel_index_is, new_tunnel_view,
    service_id_differs, spec_add_service, spec_create_tunnel, spec_delete_tunnel,
    spec_remove_service, spec_start_plan_for, tunnel_index, with_services, StartPlanView,
    spec_auto_start_plans, starts_automatically, lemma_tunnel_index_none,
    no_services_message,
};

verus! {

/// No two tunnels share a name.
pub open spec fn tunnel_names_unique(ts: Seq<TunnelDefinitionView>) -> bool {
    forall|i: int, j: int|
        0 <= i < ts.len() && 0 <= j < ts.len() && i != j ==> #[trigger] ts[i].name != #[trigger] ts[j].name
}

/// Every element of a filtered sequence comes from the sequence.
proof fn lemma_filter_from<A>(s: Seq<A>, pred: spec_fn(A) -> bool)
    ensures
        forall|i: int|
            0 <= i < s.filter(pred).len() ==> exists|j: int|
                0 <= j < s.len() && s[j] == #[trigger] s.filter(pred)[i],
    decreases s.len(),
{
    if s.len() > 0 {
        let rest = s.drop_last();
        lemma_filter_from(rest, pred);
        rest.lemma_filter_push(s.last(), pred);
        assert(rest.push(s.last()) =~= s);
        assert forall|i: int| 0 <= i < s.filter(pred).len() implies exists|j: int|
            0 <= j < s.len() && s[j] == #[trigger] s.filter(pred)[i] by {
            if i < rest.filter(pred).len() {
                let j = choose|j: int| 0 <= j < rest.len() && rest[j] == #[trigger] rest.filter(pred)[i];
                assert(s[j] == rest[j]);
            } else {
                assert(s[s.len() - 1] == s.filter(pred)[i]);
            }
        }
    } else {
        reveal(Seq::filter);
    }
}

/// Filtering a list of tunnels with unique names keeps the names unique.
proof fn lemma_filter_keeps_names_unique(
    ts: Seq<TunnelDefinitionView>,
    pred: spec_fn(TunnelDefinitionView) -> bool,
)
    requires
        tunnel_names_unique(ts),
    ensures
        tunnel_names_unique(ts.filter(pred)),
    decreases ts.len(),
{
    if ts.len() > 0 {
        let rest = ts.drop_last();
        let x = ts.last();
        assert(tunnel_names_unique(rest)) by {
            assert forall|a: int, b: int|
                0 <= a < rest.len() && 0 <= b < rest.len() && a != b implies #[trigger] rest[a].name
                != #[trigger] rest[b].name by {
                assert(ts[a].name != ts[b].name);
            }
        }
        lemma_filter_keeps_names_unique(rest, pred);
        lemma_filter_from(rest, pred);
        rest.lemma_filter_push(x, pred);
        assert(rest.push(x) =~= ts);
        if pred(x) {
            let f = rest.filter(pred);
            let g = f.push(x);
            assert forall|a: int, b: int|
                0 <= a < g.len() && 0 <= b < g.len() && a != b implies #[trigger] g[a].name
                != #[trigger] g[b].name by {
                if a == f.len() || b == f.len() {
                    let other = if a == f.len() { b } else { a };
                    let j = choose|j: int| 0 <= j < rest.len() && rest[j] == #[trigger] f[other];
                    assert(ts[j].name != ts[ts.len() - 1].name);
                } else {
                    assert(f[a].name != f[b].name);
                }
            }
        }
    } else {
        reveal(Seq::filter);
    }
}

/// Changing a tunnel's services keeps the names unique.
proof fn lemma_update_services_keeps_names_unique(
    ts: Seq<TunnelDefinitionView>,
    i: int,
    services: Seq<ServiceMappingView>,
)
    requires
        tunnel_names_unique(ts),
        0 <= i < ts.len(),
    ensures
        tunnel_names_unique(ts.update(i, with_services(ts[i], services))),
{
    let u = ts.update(i, with_services(ts[i], services));
    assert forall|a: int, b: int|
        0 <= a < u.len() && 0 <= b < u.len() && a != b implies #[trigger] u[a].name
        != #[trigger] u[b].name by {
        assert(ts[a].name != ts[b].name);
    }
}

/// Tunnel names stay unique: creating a tunnel refuses a name that is taken, and deleting a
/// tunnel, adding or removing a service, or changing the settings never touches a name.
pub proof fn law_commands_keep_tunnel_names_unique(
    c: AppConfigView,
    id: Seq<char>,
    name: Seq<char>,
    token: Option<Seq<char>>,
    auto_start: bool,
    service: ServiceMappingView,
    service_id: Seq<char>,
)
    requires
        tunnel_names_unique(c.tunnels),
    ensures
        tunnel_names_unique(spec_create_tunnel(c, id, name, token, auto_start).0.tunnels),
        tunnel_names_unique(spec_delete_tunnel(c, id).0.tunnels),
        tunnel_names_unique(spec_add_service(c, id, service).0.tunnels),
        tunnel_names_unique(spec_remove_service(c, id, service_id).0.tunnels),
{
    if !has_tunnel_named(c.tunnels, name) {
        let t = new_tunnel_view(id, name, token, auto_start);
        let ts = c.tunnels.push(t);
        assert forall|a: int, b: int|
            0 <= a < ts.len() && 0 <= b < ts.len() && a != b implies #[trigger] ts[a].name
            != #[trigger] ts[b].name by {
            if a == c.tunnels.len() {
                assert(c.tunnels[b].name != name);
            } else if b == c.tunnels.len() {
                assert(c.tunnels[a].name != name);
            } else {
                assert(c.tunnels[a].name != c.tunnels[b].name);
            }
        }
    }
    lemma_filter_keeps_names_unique(c.tunnels, id_differs(id));
    match tunnel_index(c.tunnels, id) {
        Some(i) => {
            lemma_update_services_keeps_names_unique(
                c.tunnels,
                i,
                c.tunnels[i].services.push(service),
            );
            lemma_update_services_keeps_names_unique(
                c.tunnels,
                i,
                c.tunnels[i].services.filter(service_id_differs(service_id)),
            );
        },
        None => {},
    }
}


/// Filtering by a predicate that every element meets changes nothing.
proof fn lemma_filter_all<A>(s: Seq<A>, pred: spec_fn(A) -> bool)
    requires
        forall|i: int| 0 <= i < s.len() ==> pred(#[trigger] s[i]),
    ensures
        s.filter(pred) == s,
    decreases s.len(),
{
    if s.len() > 0 {
        let rest = s.drop_last();
        assert forall|i: int| 0 <= i < rest.len() implies pred(#[trigger] rest[i]) by {
            assert(pred(s[i]));
        }
        lemma_filter_all(rest, pred);
        rest.lemma_filter_push(s.last(), pred);
        assert(rest.push(s.last()) =~= s);
    } else {
        reveal(Seq::filter);
        assert(s.filter(pred) =~= s);
    }
}

/// Removing a service undoes adding it: when the added service's id is new to the tunnel,
/// removing that id right after gives back the configuration as it was. When no tunnel has
/// the id, both commands fail and nothing changes.
pub proof fn law_remove_service_undoes_add_service(
    c: AppConfigView,
    tunnel_id: Seq<char>,
    service: ServiceMappingView,
)
    requires
        forall|i: int, j: int|
            tunnel_index(c.tunnels, tunnel_id) == Some(i) && 0 <= j < c.tunnels[i].services.len()
                ==> #[trigger] c.tunnels[i].services[j].id != service.id,
    ensures
        spec_remove_service(spec_add_service(c, tunnel_id, service).0, tunnel_id, service.id).0 == c,
{
    match tunnel_index(c.tunnels, tunnel_id) {
        None => {},
        Some(i) => {
            let k = choose|k: int| is_first_with_id(c.tunnels, tunnel_id, k);
            assert(is_first_with_id(c.tunnels, tunnel_id, i));
            let t = c.tunnels[i];
            let added = with_services(t, t.services.push(service));
            let c1 = spec_add_service(c, tunnel_id, service).0;
            assert(c1.tunnels == c.tunnels.update(i, added));
            assert(is_first_with_id(c1.tunnels, tunnel_id, i));
            lemma_tunnel_index_is(c1.tunnels, tunnel_id, i);
            let pred = service_id_differs(service.id);
            t.services.lemma_filter_push(service, pred);
            assert forall|j: int| 0 <= j < t.services.len() implies pred(#[trigger] t.services[j]) by {
                assert(c.tunnels[i].services[j].id != service.id);
            }
            lemma_filter_all(t.services, pred);
            assert(c1.tunnels[i].services.filter(pred) == t.services);
            assert(with_services(c1.tunnels[i], t.services) == t);
            let c2 = spec_remove_service(c1, tunnel_id, service.id).0;
            assert(c2.tunnels =~= c.tunnels);
        },
    }
}

/// Deleting a tunnel removes every tunnel with its id and keeps the others, in order.
pub proof fn law_delete_removes_exactly_the_id(c: AppConfigView, id: Seq<char>)
    ensures
        tunnel_index(spec_delete_tunnel(c, id).0.tunnels, id) is None,
        forall|i: int|
            0 <= i < spec_delete_tunnel(c, id).0.tunnels.len() ==> c.tunnels.contains(
                #[trigger] spec_delete_tunnel(c, id).0.tunnels[i],
            ),
        forall|j: int|
            0 <= j < c.tunnels.len() && c.tunnels[j].id != id ==> spec_delete_tunnel(
                c,
                id,
            ).0.tunnels.contains(#[trigger] c.tunnels[j]),
{
    let pred = id_differs(id);
    let kept = c.tunnels.filter(pred);
    assert forall|i: int| 0 <= i < kept.len() implies kept[i].id != id by {
        c.tunnels.lemma_filter_pred(pred, i);
    }
    lemma_filter_from(c.tunnels, pred);
    assert(spec_delete_tunnel(c, id).0.tunnels == kept);
    assert forall|i: int| 0 <= i < kept.len() implies c.tunnels.contains(#[trigger] kept[i]) by {
        let j = choose|j: int| 0 <= j < c.tunnels.len() && c.tunnels[j] == #[trigger] c.tunnels.filter(
            pred,
        )[i];
        assert(c.tunnels[j] == kept[i]);
    }
    assert forall|j: int| 0 <= j < c.tunnels.len() && c.tunnels[j].id != id implies kept.contains(
        #[trigger] c.tunnels[j],
    ) by {
        c.tunnels.lemma_filter_contains(pred, j);
    }
}

/// A created tunnel is appended after the existing ones and is the only tunnel of its
/// name; the creation fails exactly when the name is taken, and then nothing changes.
pub proof fn law_create_tunnel_appends(
    c: AppConfigView,
    id: Seq<char>,
    name: Seq<char>,
    token: Option<Seq<char>>,
    auto_start: bool,
)
    ensures
        has_tunnel_named(c.tunnels, name) <==> spec_create_tunnel(c, id, name, token, auto_start).1 is Err,
        has_tunnel_named(c.tunnels, name) ==> spec_create_tunnel(c, id, name, token, auto_start).0 == c,
        !has_tunnel_named(c.tunnels, name) ==> ({
            let after = spec_create_tunnel(c, id, name, token, auto_start).0.tunnels;
            &&& after.len() == c.tunnels.len() + 1
            &&& after.drop_last() == c.tunnels
            &&& after.last().name == name
            &&& after.last().id == id
            &&& after.last().services.len() == 0
            &&& forall|i: int| 0 <= i < c.tunnels.len() ==> #[trigger] after[i].name != name
        }),
{
    if !has_tunnel_named(c.tunnels, name) {
        let after = spec_create_tunnel(c, id, name, token, auto_start).0.tunnels;
        assert(after.drop_last() =~= c.tunnels);
        assert forall|i: int| 0 <= i < c.tunnels.len() implies #[trigger] after[i].name != name by {
            assert(after[i] == c.tunnels[i]);
        }
    }
}


/// Sanitizing a tunnel name keeps its length and every character that is alphanumeric,
/// `-` or `_`, leaves only such characters, and changes nothing the second time. Every other
/// ASCII character, path separators and dots among them, becomes `_`.
pub proof fn law_sanitize_name(name: Seq<char>)
    ensures
        sanitized(name).len() == name.len(),
        forall|i: int|
            0 <= i < name.len() ==> {
                let c = #[trigger] sanitized(name)[i];
                char_alphanumeric(c) || c == '-' || c == '_'
            },
        forall|i: int|
            0 <= i < name.len() && (char_alphanumeric(name[i]) || name[i] == '-' || name[i] == '_')
                ==> #[trigger] sanitized(name)[i] == name[i],
        forall|i: int|
            0 <= i < name.len() && (name[i] as u32) < 128 && !is_ascii_alphanumeric_char(name[i])
                && name[i] != '-' && name[i] != '_' ==> #[trigger] sanitized(name)[i] == '_',
        sanitized(sanitized(name)) == sanitized(name),
{
    assert(sanitized(sanitized(name)) =~= sanitized(name));
}

/// A tunnel's cloudflared config has one ingress entry per service, in order and under the
/// service's hostname, followed by the catch-all entry that cloudflared requires; it always
/// serves metrics on the same local address, and names the tunnel exactly when the tunnel
/// has a credentials file.
pub proof fn law_cloudflared_config_shape(t: TunnelDefinitionView)
    ensures
        spec_cloudflared_config(t).ingress.len() == t.services.len() + 1,
        spec_cloudflared_config(t).ingress.last() == catch_all_entry(),
        forall|i: int|
            0 <= i < t.services.len() ==> #[trigger] spec_cloudflared_config(t).ingress[i]
                == spec_ingress_entry(t.services[i]),
        forall|i: int|
            0 <= i < t.services.len() ==> (#[trigger] spec_cloudflared_config(t).ingress[i]).hostname
                == Some(t.services[i].hostname),
        spec_cloudflared_config(t).metrics == metrics_address(),
        spec_cloudflared_config(t).credentials is Some <==> t.credentials_file is Some,
{
}

/// RDP is carried over TCP, and SSH always reaches the local machine whatever host the
/// service names.
pub proof fn law_service_url_protocols(host: Seq<char>, other_host: Seq<char>, port: u16)
    ensures
        spec_service_url("rdp"@, host, port) == spec_service_url("tcp"@, host, port),
        spec_service_url("ssh"@, host, port) == spec_service_url("ssh"@, other_host, port),
{
    reveal_strlit("rdp");
    reveal_strlit("tcp");
    reveal_strlit("udp");
    reveal_strlit("ssh");
    assert("rdp"@ != "tcp"@) by {
        assert("rdp"@[0] != "tcp"@[0]);
    }
    assert("rdp"@ != "udp"@) by {
        assert("rdp"@[0] != "udp"@[0]);
    }
    assert("rdp"@ != "ssh"@) by {
        assert("rdp"@[0] != "ssh"@[0]);
    }
    assert("ssh"@ != "tcp"@) by {
        assert("ssh"@[0] != "tcp"@[0]);
    }
    assert("ssh"@ != "udp"@) by {
        assert("ssh"@[0] != "udp"@[0]);
    }
}

/// A tunnel with a token always starts with it; one without a token starts from a config
/// file exactly when it has a service, and is refused otherwise.
pub proof fn law_start_plan(t: TunnelDefinitionView)
    ensures
        t.token matches Some(token) ==> spec_start_plan_for(t) == Ok::<StartPlanView, Seq<char>>(
            StartPlanView::WithToken { tunnel_name: t.name, token },
        ),
        t.token is None && t.services.len() == 0 ==> spec_start_plan_for(t) == Err::<
            StartPlanView,
            Seq<char>,
        >(no_services_message()),
        t.token is None && t.services.len() > 0 ==> spec_start_plan_for(t) == Ok::<
            StartPlanView,
            Seq<char>,
        >(StartPlanView::WithConfigFile { tunnel: t }),
{
}

/// What a read gives back after the lifecycle of a tunnel's process: right after a start
/// the tunnel runs with that process and start time; after a stop it no longer runs and
/// has no process or start time, but keeps its name and what else it had; after the process
/// dies on its own the same holds and the error says so. Each of these statuses is
/// consistent (running exactly with a process and a start time, and then without an error),
/// and stopping or a process's exit keeps a consistent status consistent. No other tunnel's
/// status changes, and stopping a tunnel that has no status changes nothing.
pub proof fn law_status_lifecycle(
    m: Map<Seq<char>, TunnelStatusView>,
    name: Seq<char>,
    other: Seq<char>,
    pid: u32,
    at: Timestamp,
)
    requires
        other != name,
    ensures
        ({
            let started = m.insert(name, started_status(name, pid, at));
            let stopped = map_update_if_present(started, name, stopped_status(started[name]));
            let exited = map_update_if_present(started, name, exited_status(started[name]));
            &&& started[name].running && started[name].pid == Some(pid)
            &&& started[name].started_at == Some(at) && started[name].error is None
            &&& !stopped[name].running && stopped[name].pid is None
            &&& stopped[name].started_at is None && stopped[name].name == name
            &&& stopped[name].error is None
            &&& !exited[name].running && exited[name].pid is None
            &&& exited[name].error == Some(exited_message())
            &&& status_consistent(started[name])
            &&& status_consistent(stopped[name]) && status_consistent(exited[name])
            &&& stopped.contains_key(other) == m.contains_key(other)
            &&& m.contains_key(other) ==> stopped[other] == m[other] && exited[other] == m[other]
        }),
        !m.contains_key(name) ==> map_update_if_present(m, name, stopped_status(m[name])) == m,
        m.contains_key(other) && status_consistent(m[other]) ==> status_consistent(
            stopped_status(m[other]),
        ) && status_consistent(exited_status(m[other])),
{
}

/// Marking a running tunnel running changes nothing: a live check of a held process, whose
/// tunnel runs, leaves its status as it was.
pub proof fn law_live_check_of_running_status(s: TunnelStatusView)
    requires
        s.running,
    ensures
        alive_status(s) == s,
{
}

/// Cloudflared counts as installed exactly when there is one to run, and the managed copy is
/// preferred to one on the `PATH` whenever it exists.
pub proof fn law_installed_iff_resolved(
    managed: FsPathView,
    managed_exists: bool,
    found: Option<FsPathView>,
)
    ensures
        spec_resolved_binary(managed, managed_exists, found) is Some <==> spec_installed(
            managed_exists,
            found,
        ),
        managed_exists ==> spec_resolved_binary(managed, managed_exists, found) == Some(managed),
{
}

/// If some character from `start` on ends the address, a first one does.
proof fn lemma_first_url_end_exists(line: Seq<char>, start: int, k: int)
    requires
        start <= k < line.len(),
        ends_url(line[k]),
    ensures
        exists|e: int| is_url_end(line, start, e),
    decreases k - start,
{
    if forall|j: int| start <= j < k ==> !ends_url(#[trigger] line[j]) {
        assert(is_url_end(line, start, k));
    } else {
        let j = choose|j: int| start <= j < k && ends_url(#[trigger] line[j]);
        lemma_first_url_end_exists(line, start, j);
    }
}

/// The address a line of cloudflared's output yields starts with `https://`, holds
/// `.trycloudflare.com`, has no whitespace or `|` in it, and is the text of the line from
/// where a quick tunnel address starts; no quick tunnel address starts earlier in the line.
pub proof fn law_quick_tunnel_url(line: Seq<char>)
    ensures
        spec_quick_tunnel_url(line) matches Some(url) ==> {
            &&& url.len() >= 8 && url.subrange(0, 8) == "https://"@
            &&& exists|i: int| #[trigger] occurs_at(url, quick_domain(), i)
            &&& forall|k: int| 0 <= k < url.len() ==> !ends_url(#[trigger] url[k])
            &&& exists|s: int|
                #[trigger] quick_url_at(line, s) && url == line.subrange(s, s + url.len())
                    && forall|j: int| 0 <= j < s ==> !quick_url_at(line, j)
        },
{
    if let Some(url) = spec_quick_tunnel_url(line) {
        let start = choose|s: int| is_first_quick_url(line, s);
        assert(quick_url_at(line, start));
        let end = url_end(line, start);
        assert(url == line.subrange(start, end));
        // The end lies within the line and after every character that does not end the address.
        assert(start <= end <= line.len()) by {
            if exists|e: int| is_url_end(line, start, e) {
                let e = choose|e: int| is_url_end(line, start, e);
            }
        }
        assert forall|k: int| 0 <= k < url.len() implies !ends_url(#[trigger] url[k]) by {
            assert(url[k] == line[start + k]);
            if exists|e: int| is_url_end(line, start, e) {
                let e = choose|e: int| is_url_end(line, start, e);
                assert(!ends_url(line[start + k]));
            } else if ends_url(line[start + k]) {
                lemma_first_url_end_exists(line, start, start + k);
            }
        }
        reveal_strlit("https://");
        assert(line.subrange(start, start + 8) == "https://"@);
        assert(end >= start + 8) by {
            if end < start + 8 {
                let e = choose|e: int| is_url_end(line, start, e);
                assert(line[e] == "https://"@[e - start]);
            }
        }
        assert(url.subrange(0, 8) =~= "https://"@);
        let i = choose|i: int|
            start <= i && i + quick_domain().len() <= end && #[trigger] occurs_at(line, quick_domain(), i);
        assert(url.subrange(i - start, i - start + quick_domain().len()) =~= line.subrange(
            i,
            i + quick_domain().len(),
        ));
        assert(occurs_at(url, quick_domain(), i - start));
    }
}

/// The scheme a service's local address is reached by: TCP for `tcp` and `rdp`, UDP for
/// `udp`, HTTPS for `https`, and HTTP for every other protocol.
pub open spec fn local_scheme(protocol: Seq<char>) -> Seq<char> {
    if protocol == "tcp"@ || protocol == "rdp"@ {
        "tcp://"@
    } else if protocol == "udp"@ {
        "udp://"@
    } else if protocol == "https"@ {
        "https://"@
    } else {
        "http://"@
    }
}

/// A service's local address is the service's own host and port under the protocol's
/// scheme, for every protocol but SSH, which always reaches this machine: the host a
/// service names is never replaced, and `http` is treated like any unknown protocol.
pub proof fn law_service_url_keeps_host_and_port(protocol: Seq<char>, host: Seq<char>, port: u16)
    ensures
        protocol != "ssh"@ ==> spec_service_url(protocol, host, port) == local_scheme(protocol)
            + host + ":"@ + decimal(port as nat),
        protocol == "ssh"@ ==> spec_service_url(protocol, host, port) == "ssh://localhost:"@
            + decimal(port as nat),
{
    reveal_strlit("tcp");
    reveal_strlit("udp");
    reveal_strlit("ssh");
    reveal_strlit("rdp");
    reveal_strlit("https");
    assert("rdp"@[0] != "tcp"@[0] && "rdp"@[0] != "udp"@[0] && "rdp"@[0] != "ssh"@[0]);
    assert("ssh"@[0] != "tcp"@[0] && "ssh"@[0] != "udp"@[0]);
    assert("https"@.len() != "ssh"@.len() && "https"@.len() != "tcp"@.len());
    assert("https"@.len() != "udp"@.len() && "https"@.len() != "rdp"@.len());
}

/// The scheme a quick tunnel forwards to: TCP for `tcp`, HTTPS for `https`, else HTTP.
pub open spec fn quick_scheme(protocol: Seq<char>) -> Seq<char> {
    if protocol == "tcp"@ {
        "tcp://"@
    } else if protocol == "https"@ {
        "https://"@
    } else {
        "http://"@
    }
}

/// A quick tunnel forwards to this machine's port under a scheme that depends on the
/// protocol alone, whatever the port: `cloudflared tunnel --url <scheme>localhost:<port>`.
pub proof fn law_quick_tunnel_scheme(protocol: Seq<char>, port: u16, other_port: u16)
    ensures
        spec_quick_service(protocol, port) == quick_scheme(protocol) + "localhost:"@ + decimal(
            port as nat,
        ),
        spec_quick_tunnel_args(port, protocol) == seq![
            "tunnel"@,
            "--url"@,
            quick_scheme(protocol) + "localhost:"@ + decimal(port as nat),
        ],
        spec_quick_service(protocol, port).take(quick_scheme(protocol).len() as int)
            == spec_quick_service(protocol, other_port).take(quick_scheme(protocol).len() as int),
{
    reveal_strlit("tcp");
    reveal_strlit("https");
    reveal_strlit("tcp://");
    reveal_strlit("https://");
    reveal_strlit("http://");
    reveal_strlit("localhost:");
    reveal_strlit("tcp://localhost:");
    reveal_strlit("https://localhost:");
    reveal_strlit("http://localhost:");
    let p = decimal(port as nat);
    assert("tcp://localhost:"@ + p =~= "tcp://"@ + "localhost:"@ + p);
    assert("https://localhost:"@ + p =~= "https://"@ + "localhost:"@ + p);
    assert("http://localhost:"@ + p =~= "http://"@ + "localhost:"@ + p);
    let s = quick_scheme(protocol);
    assert((s + "localhost:"@ + decimal(port as nat)).take(s.len() as int) =~= s);
    assert((s + "localhost:"@ + decimal(other_port as nat)).take(s.len() as int) =~= s);
}

/// A created tunnel is exactly what it was created with: the given id, name, token and
/// auto-start setting, no credentials file and no services; it is the command's result and
/// the last tunnel of the configuration.
pub proof fn law_create_tunnel_keeps_its_settings(
    c: AppConfigView,
    id: Seq<char>,
    name: Seq<char>,
    token: Option<Seq<char>>,
    auto_start: bool,
)
    requires
        !has_tunnel_named(c.tunnels, name),
    ensures
        ({
            let created = TunnelDefinitionView {
                id,
                name,
                token,
                credentials_file: None,
                services: Seq::empty(),
                auto_start,
            };
            &&& spec_create_tunnel(c, id, name, token, auto_start).1 == Ok::<
                TunnelDefinitionView,
                Seq<char>,
            >(created)
            &&& spec_create_tunnel(c, id, name, token, auto_start).0.tunnels.last() == created
        }),
{
}

/// Some tunnel with the id is followed by a first one.
proof fn lemma_first_with_id_exists(ts: Seq<TunnelDefinitionView>, id: Seq<char>, k: int)
    requires
        0 <= k < ts.len(),
        ts[k].id == id,
    ensures
        exists|i: int| is_first_with_id(ts, id, i),
    decreases k,
{
    if forall|j: int| 0 <= j < k ==> ts[j].id != id {
        assert(is_first_with_id(ts, id, k));
    } else {
        let j = choose|j: int| 0 <= j < k && ts[j].id == id;
        lemma_first_with_id_exists(ts, id, j);
    }
}

/// Deleting a tunnel names a tunnel to stop exactly when some tunnel has the id, and then it
/// is the first tunnel with that id, whatever it holds.
pub proof fn law_delete_names_the_tunnel_to_stop(c: AppConfigView, id: Seq<char>)
    ensures
        (exists|k: int| 0 <= k < c.tunnels.len() && #[trigger] c.tunnels[k].id == id)
            <==> spec_delete_tunnel(c, id).1 is Some,
        forall|i: int|
            #[trigger] is_first_with_id(c.tunnels, id, i) ==> spec_delete_tunnel(c, id).1 == Some(
                c.tunnels[i].name,
            ),
{
    if exists|k: int| 0 <= k < c.tunnels.len() && #[trigger] c.tunnels[k].id == id {
        let k = choose|k: int| 0 <= k < c.tunnels.len() && #[trigger] c.tunnels[k].id == id;
        lemma_first_with_id_exists(c.tunnels, id, k);
        let i = choose|i: int| is_first_with_id(c.tunnels, id, i);
        lemma_tunnel_index_is(c.tunnels, id, i);
    } else {
        lemma_tunnel_index_none(c.tunnels, id);
    }
    assert forall|i: int| #[trigger] is_first_with_id(c.tunnels, id, i) implies spec_delete_tunnel(
        c,
        id,
    ).1 == Some(c.tunnels[i].name) by {
        lemma_tunnel_index_is(c.tunnels, id, i);
    }
}

/// Launching the application starts tunnels exactly as the start command would: a tunnel is
/// started when it is marked for auto-start and the start command would succeed on it; the
/// plans follow the tunnels in order, and each is the plan the start command makes for its
/// tunnel (so a tunnel with a token starts with that token). Nothing starts when auto-start
/// is off.
pub proof fn law_auto_start_plans_start_like_the_command(c: AppConfigView)
    ensures
        forall|t: TunnelDefinitionView|
            #[trigger] starts_automatically(t) <==> (t.auto_start && spec_start_plan_for(t) is Ok),
        !c.auto_start ==> spec_auto_start_plans(c).len() == 0,
        c.auto_start ==> ({
            let sel = c.tunnels.filter(|t: TunnelDefinitionView| starts_automatically(t));
            let plans = spec_auto_start_plans(c);
            &&& plans.len() == sel.len()
            &&& forall|i: int|
                0 <= i < plans.len() ==> Ok::<StartPlanView, Seq<char>>(#[trigger] plans[i])
                    == spec_start_plan_for(sel[i]) && sel[i].auto_start
        }),
{
    if c.auto_start {
        let pick = |t: TunnelDefinitionView| starts_automatically(t);
        let sel = c.tunnels.filter(pick);
        let plans = spec_auto_start_plans(c);
        assert forall|i: int| 0 <= i < plans.len() implies Ok::<StartPlanView, Seq<char>>(
            #[trigger] plans[i],
        ) == spec_start_plan_for(sel[i]) && sel[i].auto_start by {
            c.tunnels.lemma_filter_pred(pick, i);
        }
    }
}

} // verus!
