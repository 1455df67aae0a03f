use vstd::prelude::*;
use vstd::string::StringExecFns;

use crate::config::{copy_opt_string, opt_str_view, str_equals, strings_view};
use std::path::PathBuf;

use crate::path::{FsPath, FsPathView};
use crate::text::{chars_of, matches_at, occurs_at};

verus! {

/// A point in time in UTC: whole seconds since the Unix epoch and the nanoseconds past them.
#[derive(Debug, Clone, Copy, PartialEq, Eq)]
pub struct Timestamp {
    pub secs: i64,
    pub nanos: u32,
}

/// One service a running tunnel routes.
#[derive(Debug, Clone, PartialEq)]
pub struct ServiceEntry {
    pub hostname: String,
    pub service: String,
    pub protocol: String,
}

/// What is known of a tunnel's cloudflared process.
#[derive(Debug, Clone, PartialEq)]
pub struct TunnelStatus {
    pub name: String,
    pub running: bool,
    pub pid: Option<u32>,
    pub started_at: Option<Timestamp>,
    pub public_url: Option<String>,
    pub services: Vec<ServiceEntry>,
    pub error: Option<String>,
    pub bytes_in: u64,
    pub bytes_out: u64,
}

pub struct ServiceEntryView {
    pub hostname: Seq<char>,
    pub service: Seq<char>,
    pub protocol: Seq<char>,
}

impl View for ServiceEntry {
    type V = ServiceEntryView;

    open spec fn view(&self) -> ServiceEntryView {
        ServiceEntryView { hostname: self.hostname@, service: self.service@, protocol: self.protocol@ }
    }
}

pub struct TunnelStatusView {
    pub name: Seq<char>,
    pub running: bool,
    pub pid: Option<u32>,
    pub started_at: Option<Timestamp>,
    pub public_url: Option<Seq<char>>,
    pub services: Seq<ServiceEntryView>,
    pub error: Option<Seq<char>>,
    pub bytes_in: u64,
    pub bytes_out: u64,
}

impl View for TunnelStatus {
    type V = TunnelStatusView;

    open spec fn view(&self) -> TunnelStatusView {
        TunnelStatusView {
            name: self.name@,
            running: self.running,
            pid: self.pid,
            started_at: self.started_at,
            public_url: opt_str_view(self.public_url),
            services: self.services@.map_values(|s: ServiceEntry| s@),
            error: opt_str_view(self.error),
            bytes_in: self.bytes_in,
            bytes_out: self.bytes_out,
        }
    }
}

impl ServiceEntry {
    /// A field-by-field copy.
    pub fn duplicate(&self) -> (r: ServiceEntry)
        ensures
            r@ == self@,
    {
        ServiceEntry {
            hostname: self.hostname.clone(),
            service: self.service.clone(),
            protocol: self.protocol.clone(),
        }
    }
}

impl TunnelStatus {
    /// A field-by-field copy.
    pub fn duplicate(&self) -> (r: TunnelStatus)
        ensures
            r@ == self@,
    {
        let mut services: Vec<ServiceEntry> = Vec::new();
        let n = self.services.len();
        for i in 0..n
            invariant
                n == self.services@.len(),
                services@.map_values(|s: ServiceEntry| s@) =~= self.services@.map_values(
                    |s: ServiceEntry| s@,
                ).take(i as int),
        {
            services.push(self.services[i].duplicate());
            assert(self.services@.map_values(|s: ServiceEntry| s@).take(i + 1) =~= self.services@.map_values(
                |s: ServiceEntry| s@,
            ).take(i as int).push(self.services@[i as int]@));
        }
        assert(self.services@.map_values(|s: ServiceEntry| s@).take(n as int) =~= self.services@.map_values(
            |s: ServiceEntry| s@,
        ));
        TunnelStatus {
            name: self.name.clone(),
            running: self.running,
            pid: self.pid,
            started_at: self.started_at,
            public_url: copy_opt_string(&self.public_url),
            services,
            error: copy_opt_string(&self.error),
            bytes_in: self.bytes_in,
            bytes_out: self.bytes_out,
        }
    }
}


/// No two statuses share a name.
pub open spec fn names_unique(s: Seq<TunnelStatus>) -> bool {
    forall|i: int, j: int|
        0 <= i < s.len() && 0 <= j < s.len() && i != j ==> #[trigger] s[i].name@ != #[trigger] s[j].name@
}

/// Some status in the list has the name.
pub open spec fn has_name(s: Seq<TunnelStatus>, name: Seq<char>) -> bool {
    exists|i: int| 0 <= i < s.len() && #[trigger] s[i].name@ == name
}

/// The statuses keyed by tunnel name.
pub open spec fn status_map(s: Seq<TunnelStatus>) -> Map<Seq<char>, TunnelStatusView> {
    Map::new(
        |k: Seq<char>| has_name(s, k),
        |k: Seq<char>| s[choose|i: int| 0 <= i < s.len() && #[trigger] s[i].name@ == k]@,
    )
}

/// The status a tunnel gets when its process has just been started.
pub open spec fn started_status(name: Seq<char>, pid: u32, at: Timestamp) -> TunnelStatusView {
    TunnelStatusView {
        name,
        running: true,
        pid: Some(pid),
        started_at: Some(at),
        public_url: None,
        services: Seq::empty(),
        error: None,
        bytes_in: 0,
        bytes_out: 0,
    }
}

/// The status of a tunnel whose process was stopped: not running, no process, no start time.
pub open spec fn stopped_status(s: TunnelStatusView) -> TunnelStatusView {
    TunnelStatusView { running: false, pid: None, started_at: None, ..s }
}

/// The error recorded for a tunnel whose process ended on its own.
pub open spec fn exited_message() -> Seq<char> {
    "Process exited unexpectedly"@
}

/// The status of a tunnel whose process ended without being asked to.
pub open spec fn exited_status(s: TunnelStatusView) -> TunnelStatusView {
    TunnelStatusView {
        running: false,
        pid: None,
        started_at: None,
        error: Some(exited_message()),
        ..s
    }
}

/// The status of a tunnel whose process was found alive.
pub open spec fn alive_status(s: TunnelStatusView) -> TunnelStatusView {
    TunnelStatusView { running: true, ..s }
}

/// A status is consistent: a tunnel runs exactly when it has a process id and a start time,
/// and a running tunnel has no error.
pub open spec fn status_consistent(s: TunnelStatusView) -> bool {
    &&& s.running <==> s.pid is Some
    &&& s.running <==> s.started_at is Some
    &&& s.running ==> s.error is None
}

/// Every status of the list is consistent.
pub open spec fn all_consistent(s: Seq<TunnelStatus>) -> bool {
    forall|i: int| 0 <= i < s.len() ==> status_consistent(#[trigger] s[i]@)
}

/// The status with the public address the tunnel was given.
pub open spec fn with_public_url(s: TunnelStatusView, url: Seq<char>) -> TunnelStatusView {
    TunnelStatusView { public_url: Some(url), ..s }
}

/// The statuses after changing the status of `name`, if it has one.
pub open spec fn map_update_if_present(
    m: Map<Seq<char>, TunnelStatusView>,
    name: Seq<char>,
    new_status: TunnelStatusView,
) -> Map<Seq<char>, TunnelStatusView> {
    if m.contains_key(name) {
        m.insert(name, new_status)
    } else {
        m
    }
}

/// What a check of a tunnel process found.
#[derive(Debug, Clone, Copy, PartialEq, Eq)]
pub enum ProcessCheck {
    /// The process has not exited.
    StillRunning,
    /// The process has exited.
    Exited,
    /// Its state could not be read.
    Failed,
}

/// The names of the statuses whose flag is set.
pub open spec fn held_set(s: Seq<TunnelStatus>, held: Seq<bool>) -> Set<Seq<char>> {
    Set::new(
        |k: Seq<char>|
            exists|i: int| 0 <= i < s.len() && #[trigger] s[i].name@ == k && held[i],
    )
}

/// The record of every tunnel's status, by tunnel name, and of the tunnels whose process is
/// held (started and neither stopped nor found gone since).
pub struct CloudflaredManager {
    statuses: Vec<TunnelStatus>,
    held: Vec<bool>,
}

impl CloudflaredManager {
    #[verifier::type_invariant]
    spec fn inv(self) -> bool {
        &&& names_unique(self.statuses@)
        &&& all_consistent(self.statuses@)
        &&& self.held@.len() == self.statuses@.len()
        &&& forall|i: int| 0 <= i < self.held@.len() && #[trigger] self.held@[i] ==> self.statuses@[i].running
    }

    /// The statuses keyed by tunnel name.
    pub closed spec fn statuses(self) -> Map<Seq<char>, TunnelStatusView> {
        status_map(self.statuses@)
    }

    /// The tunnels whose process is held.
    pub closed spec fn holds(self) -> Set<Seq<char>> {
        held_set(self.statuses@, self.held@)
    }

    /// A manager that knows of no tunnel and holds no process.
    pub fn new() -> (m: CloudflaredManager)
        ensures
            m.statuses() == Map::<Seq<char>, TunnelStatusView>::empty(),
            m.holds() == Set::<Seq<char>>::empty(),
    {
        let m = CloudflaredManager { statuses: Vec::new(), held: Vec::new() };
        assert(m.statuses() =~= Map::<Seq<char>, TunnelStatusView>::empty());
        assert(m.holds() =~= Set::<Seq<char>>::empty());
        m
    }

    /// A tunnel whose process is held has a status, and that status says it runs.
    pub fn holds_process(&self, tunnel_name: &str) -> (held: bool)
        ensures
            held == self.holds().contains(tunnel_name@),
            held ==> self.statuses().contains_key(tunnel_name@) && self.statuses()[tunnel_name@].running,
    {
        proof {
            use_type_invariant(self);
        }
        match self.position(tunnel_name) {
            Some(i) => {
                proof {
                    Self::lemma_lookup(self.statuses@, i as int);
                    Self::lemma_held_at(self.statuses@, self.held@, i as int);
                }
                self.held[i]
            },
            None => {
                proof {
                    if self.holds().contains(tunnel_name@) {
                        let j = choose|j: int|
                            0 <= j < self.statuses@.len() && #[trigger] self.statuses@[j].name@
                                == tunnel_name@ && self.held@[j];
                        assert(has_name(self.statuses@, tunnel_name@));
                    }
                }
                false
            },
        }
    }

    /// Whether a name is held is read at its position.
    proof fn lemma_held_at(s: Seq<TunnelStatus>, held: Seq<bool>, i: int)
        requires
            names_unique(s),
            held.len() == s.len(),
            0 <= i < s.len(),
        ensures
            held_set(s, held).contains(s[i].name@) == held[i],
    {
        if held_set(s, held).contains(s[i].name@) {
            let j = choose|j: int| 0 <= j < s.len() && #[trigger] s[j].name@ == s[i].name@ && held[j];
            assert(i == j);
        }
    }

    fn position(&self, name: &str) -> (r: Option<usize>)
        ensures
            r matches Some(i) ==> i < self.statuses@.len() && self.statuses@[i as int].name@ == name@,
            r is None ==> !has_name(self.statuses@, name@),
    {
        let n = self.statuses.len();
        for i in 0..n
            invariant
                n == self.statuses@.len(),
                forall|j: int| 0 <= j < i ==> self.statuses@[j].name@ != name@,
        {
            if str_equals(self.statuses[i].name.as_str(), name) {
                return Some(i);
            }
        }
        None
    }

    /// The map holds the status at each position under its name.
    proof fn lemma_lookup(s: Seq<TunnelStatus>, i: int)
        requires
            names_unique(s),
            0 <= i < s.len(),
        ensures
            status_map(s).contains_key(s[i].name@),
            status_map(s)[s[i].name@] == s[i]@,
    {
        let k = s[i].name@;
        assert(has_name(s, k));
        let j = choose|j: int| 0 <= j < s.len() && #[trigger] s[j].name@ == k;
        assert(i == j);
    }

    /// Replacing the status at a position with one of the same name updates the map there.
    proof fn lemma_replace(old: Seq<TunnelStatus>, i: int, st: TunnelStatus)
        requires
            names_unique(old),
            0 <= i < old.len(),
            st.name@ == old[i].name@,
        ensures
            names_unique(old.update(i, st)),
            status_map(old.update(i, st)) == status_map(old).insert(st.name@, st@),
    {
        let new = old.update(i, st);
        assert(names_unique(new)) by {
            assert forall|a: int, b: int|
                0 <= a < new.len() && 0 <= b < new.len() && a != b implies #[trigger] new[a].name@
                != #[trigger] new[b].name@ by {
                assert(old[a].name@ != old[b].name@);
            }
        }
        assert forall|k: Seq<char>| #[trigger] has_name(new, k) == has_name(old, k) by {
            if has_name(new, k) {
                let j = choose|j: int| 0 <= j < new.len() && #[trigger] new[j].name@ == k;
                assert(old[j].name@ == k);
            }
            if has_name(old, k) {
                let j = choose|j: int| 0 <= j < old.len() && #[trigger] old[j].name@ == k;
                assert(new[j].name@ == k);
            }
        }
        assert forall|k: Seq<char>| has_name(new, k) implies #[trigger] status_map(new)[k] == status_map(
            old,
        ).insert(st.name@, st@)[k] by {
            let j = choose|j: int| 0 <= j < new.len() && #[trigger] new[j].name@ == k;
            if k == st.name@ {
                assert(j == i);
            } else {
                let j2 = choose|j: int| 0 <= j < old.len() && #[trigger] old[j].name@ == k;
                assert(old[j].name@ == k);
                assert(j == j2);
            }
        }
        assert(status_map(new) =~= status_map(old).insert(st.name@, st@));
    }

    /// Appending a status of a new name adds it to the map.
    proof fn lemma_append(old: Seq<TunnelStatus>, st: TunnelStatus)
        requires
            names_unique(old),
            !has_name(old, st.name@),
        ensures
            names_unique(old.push(st)),
            status_map(old.push(st)) == status_map(old).insert(st.name@, st@),
    {
        let new = old.push(st);
        assert(names_unique(new)) by {
            assert forall|a: int, b: int|
                0 <= a < new.len() && 0 <= b < new.len() && a != b implies #[trigger] new[a].name@
                != #[trigger] new[b].name@ by {
                if a == old.len() {
                    assert(old[b].name@ != st.name@);
                } else if b == old.len() {
                    assert(old[a].name@ != st.name@);
                } else {
                    assert(old[a].name@ != old[b].name@);
                }
            }
        }
        assert forall|k: Seq<char>| #[trigger] has_name(new, k) == (has_name(old, k) || k == st.name@) by {
            if has_name(old, k) {
                let j = choose|j: int| 0 <= j < old.len() && #[trigger] old[j].name@ == k;
                assert(new[j].name@ == k);
            }
            if k == st.name@ {
                assert(new[old.len() as int].name@ == k);
            }
            if has_name(new, k) && k != st.name@ {
                let j = choose|j: int| 0 <= j < new.len() && #[trigger] new[j].name@ == k;
                assert(old[j].name@ == k);
            }
        }
        assert forall|k: Seq<char>| has_name(new, k) implies #[trigger] status_map(new)[k] == status_map(
            old,
        ).insert(st.name@, st@)[k] by {
            let j = choose|j: int| 0 <= j < new.len() && #[trigger] new[j].name@ == k;
            if k == st.name@ {
                assert(new[old.len() as int].name@ == k);
                assert(j == old.len());
            } else {
                let j2 = choose|j: int| 0 <= j < old.len() && #[trigger] old[j].name@ == k;
                assert(old[j2].name@ == k);
                assert(new[j2].name@ == k);
                assert(j == j2);
            }
        }
        assert(status_map(new) =~= status_map(old).insert(st.name@, st@));
    }
}


impl CloudflaredManager {
    /// Stores a status under its own name, replacing any earlier status of that name, and
    /// whether its process is held.
    fn put(&mut self, st: TunnelStatus, held: bool)
        requires
            status_consistent(st@),
            held ==> st.running,
        ensures
            final(self).statuses() == old(self).statuses().insert(st.name@, st@),
            final(self).holds() == (if held {
                old(self).holds().insert(st.name@)
            } else {
                old(self).holds().remove(st.name@)
            }),
    {
        proof {
            use_type_invariant(&*self);
        }
        let ghost before = self.statuses@;
        let ghost held_before = self.held@;
        let ghost old_holds = self.holds();
        let ghost name = st.name@;
        let pos = self.position(st.name.as_str());
        let mut taken = CloudflaredManager { statuses: Vec::new(), held: Vec::new() };
        std::mem::swap(&mut taken, self);
        let CloudflaredManager { statuses: mut statuses, held: mut flags } = taken;
        match pos {
            Some(i) => {
                proof {
                    Self::lemma_replace(before, i as int, st);
                }
                statuses.set(i, st);
                flags.set(i, held);
                assert(all_consistent(statuses@)) by {
                    assert forall|j: int| 0 <= j < statuses@.len() implies status_consistent(
                        #[trigger] statuses@[j]@,
                    ) by {
                        if j != i {
                            assert(statuses@[j] == before[j]);
                        }
                    }
                }
            },
            None => {
                proof {
                    Self::lemma_append(before, st);
                }
                statuses.push(st);
                flags.push(held);
                assert(all_consistent(statuses@)) by {
                    assert forall|j: int| 0 <= j < statuses@.len() implies status_consistent(
                        #[trigger] statuses@[j]@,
                    ) by {
                        if j < before.len() {
                            assert(statuses@[j] == before[j]);
                        }
                    }
                }
            },
        }
        proof {
            let new_pos: int = match pos {
                Some(i) => i as int,
                None => before.len() as int,
            };
            assert(statuses@[new_pos].name@ == name);
            Self::lemma_held_at(statuses@, flags@, new_pos);
            let expected = if held {
                old_holds.insert(name)
            } else {
                old_holds.remove(name)
            };
            assert forall|k: Seq<char>| k != name implies held_set(statuses@, flags@).contains(k)
                == old_holds.contains(k) by {
                if held_set(statuses@, flags@).contains(k) {
                    let j = choose|j: int|
                        0 <= j < statuses@.len() && #[trigger] statuses@[j].name@ == k && flags@[j];
                    assert(j != new_pos);
                    assert(before[j].name@ == k && held_before[j]);
                }
                if old_holds.contains(k) {
                    let j = choose|j: int|
                        0 <= j < before.len() && #[trigger] before[j].name@ == k && held_before[j];
                    if let Some(i) = pos {
                        assert(j != i);
                    }
                    assert(statuses@[j].name@ == k && flags@[j]);
                }
            }
            assert(held_set(statuses@, flags@) =~= expected);
        }
        *self = CloudflaredManager { statuses, held: flags };
    }

    /// Records that the tunnel's process was started at the given time (the status part of
    /// `start_tunnel` and `start_tunnel_with_token`): running, with its process id and start
    /// time, no address, services or error yet, no traffic counted.
    pub fn record_started_at(&mut self, tunnel_name: &str, pid: u32, at: Timestamp)
        ensures
            final(self).statuses() == old(self).statuses().insert(
                tunnel_name@,
                started_status(tunnel_name@, pid, at),
            ),
            final(self).holds() == old(self).holds().insert(tunnel_name@),
    {
        let st = TunnelStatus {
            name: String::from_str(tunnel_name),
            running: true,
            pid: Some(pid),
            started_at: Some(at),
            public_url: None,
            services: Vec::new(),
            error: None,
            bytes_in: 0,
            bytes_out: 0,
        };
        assert(st@.services =~= Seq::<ServiceEntryView>::empty());
        self.put(st, true);
    }

    /// Records that the tunnel's process was stopped (the status part of `stop_tunnel`): its
    /// process is no longer held, and if the tunnel has a status, it is no longer running and
    /// has no process or start time.
    pub fn record_stopped(&mut self, tunnel_name: &str)
        ensures
            final(self).statuses() == map_update_if_present(
                old(self).statuses(),
                tunnel_name@,
                stopped_status(old(self).statuses()[tunnel_name@]),
            ),
            final(self).holds() == old(self).holds().remove(tunnel_name@),
    {
        proof {
            use_type_invariant(&*self);
        }
        match self.position(tunnel_name) {
            Some(i) => {
                proof {
                    Self::lemma_lookup(self.statuses@, i as int);
                }
                let mut st = self.statuses[i].duplicate();
                st.running = false;
                st.pid = None;
                st.started_at = None;
                self.put(st, false);
            },
            None => {
                proof {
                    Self::lemma_not_held(self.statuses@, self.held@, tunnel_name@);
                    assert(self.holds() =~= self.holds().remove(tunnel_name@));
                }
            },
        }
    }

    /// A name without a status is not held.
    proof fn lemma_not_held(s: Seq<TunnelStatus>, held: Seq<bool>, k: Seq<char>)
        requires
            !has_name(s, k),
        ensures
            !held_set(s, held).contains(k),
    {
        if held_set(s, held).contains(k) {
            let j = choose|j: int| 0 <= j < s.len() && #[trigger] s[j].name@ == k && held[j];
            assert(has_name(s, k));
        }
    }

    /// Records what a check of the tunnel's process found (the decision of
    /// `check_processes_alive`, one process at a time). Returns whether the process is gone,
    /// so that its handle is to be dropped: it is gone when it exited or could not be checked.
    /// A gone process is no longer held, and marks its tunnel stopped with an error. A live
    /// held process marks its tunnel running, which it already is; a live process that is not
    /// held changes nothing.
    pub fn record_process_check(&mut self, tunnel_name: &str, check: ProcessCheck) -> (gone: bool)
        ensures
            gone == (check != ProcessCheck::StillRunning),
            gone ==> final(self).statuses() == map_update_if_present(
                old(self).statuses(),
                tunnel_name@,
                exited_status(old(self).statuses()[tunnel_name@]),
            ),
            gone ==> final(self).holds() == old(self).holds().remove(tunnel_name@),
            !gone && old(self).holds().contains(tunnel_name@) ==> final(self).statuses()
                == old(self).statuses().insert(
                tunnel_name@,
                alive_status(old(self).statuses()[tunnel_name@]),
            ),
            !gone && !old(self).holds().contains(tunnel_name@) ==> final(self).statuses() == old(
                self,
            ).statuses(),
            !gone ==> final(self).holds() == old(self).holds(),
    {
        proof {
            use_type_invariant(&*self);
        }
        let gone = match check {
            ProcessCheck::StillRunning => false,
            _ => true,
        };
        match self.position(tunnel_name) {
            Some(i) => {
                proof {
                    Self::lemma_lookup(self.statuses@, i as int);
                    Self::lemma_held_at(self.statuses@, self.held@, i as int);
                }
                if gone {
                    let mut st = self.statuses[i].duplicate();
                    st.running = false;
                    st.pid = None;
                    st.started_at = None;
                    st.error = Some(String::from_str("Process exited unexpectedly"));
                    self.put(st, false);
                } else if self.held[i] {
                    let mut st = self.statuses[i].duplicate();
                    st.running = true;
                    self.put(st, true);
                    proof {
                        assert(self.holds() =~= old(self).holds());
                    }
                }
            },
            None => {
                proof {
                    Self::lemma_not_held(self.statuses@, self.held@, tunnel_name@);
                    assert(self.holds() =~= self.holds().remove(tunnel_name@));
                }
            },
        }
        gone
    }

    /// Records the public address the tunnel was given, if the tunnel has a status.
    pub fn record_public_url(&mut self, tunnel_name: &str, url: String)
        ensures
            final(self).statuses() == map_update_if_present(
                old(self).statuses(),
                tunnel_name@,
                with_public_url(old(self).statuses()[tunnel_name@], url@),
            ),
            final(self).holds() == old(self).holds(),
    {
        proof {
            use_type_invariant(&*self);
        }
        match self.position(tunnel_name) {
            Some(i) => {
                proof {
                    Self::lemma_lookup(self.statuses@, i as int);
                }
                proof {
                    Self::lemma_held_at(self.statuses@, self.held@, i as int);
                }
                let held = self.held[i];
                let mut st = self.statuses[i].duplicate();
                st.public_url = Some(url);
                self.put(st, held);
                proof {
                    assert(self.holds() =~= old(self).holds());
                }
            },
            None => {},
        }
    }

    /// The current status of a tunnel.
    pub fn get_status(&self, tunnel_name: &str) -> (r: Option<TunnelStatus>)
        ensures
            self.statuses().contains_key(tunnel_name@) ==> (r matches Some(st) && st@
                == self.statuses()[tunnel_name@]),
            !self.statuses().contains_key(tunnel_name@) ==> r is None,
            r matches Some(st) ==> status_consistent(st@),
    {
        proof {
            use_type_invariant(self);
        }
        match self.position(tunnel_name) {
            Some(i) => {
                proof {
                    Self::lemma_lookup(self.statuses@, i as int);
                }
                Some(self.statuses[i].duplicate())
            },
            None => None,
        }
    }

    /// The status of every tunnel, each once.
    pub fn get_all_statuses(&self) -> (r: Vec<TunnelStatus>)
        ensures
            r@.len() == self.statuses().dom().len(),
            names_unique(r@),
            forall|k: Seq<char>| #[trigger] self.statuses().contains_key(k) <==> has_name(r@, k),
            forall|i: int|
                0 <= i < r@.len() ==> #[trigger] r@[i]@ == self.statuses()[r@[i].name@],
            forall|i: int| 0 <= i < r@.len() ==> status_consistent(#[trigger] r@[i]@),
    {
        proof {
            use_type_invariant(self);
        }
        let mut r: Vec<TunnelStatus> = Vec::new();
        let n = self.statuses.len();
        for i in 0..n
            invariant
                n == self.statuses@.len(),
                names_unique(self.statuses@),
                r@.len() == i,
                forall|j: int| 0 <= j < i ==> (#[trigger] r@[j])@ == self.statuses@[j]@,
        {
            r.push(self.statuses[i].duplicate());
        }
        proof {
            assert forall|a: int, b: int|
                0 <= a < r@.len() && 0 <= b < r@.len() && a != b implies #[trigger] r@[a].name@
                != #[trigger] r@[b].name@ by {
                assert(r@[a]@ == self.statuses@[a]@);
                assert(r@[b]@ == self.statuses@[b]@);
            }
            assert forall|k: Seq<char>| #[trigger] self.statuses().contains_key(k) <==> has_name(
                r@,
                k,
            ) by {
                if has_name(r@, k) {
                    let j = choose|j: int| 0 <= j < r@.len() && #[trigger] r@[j].name@ == k;
                    assert(r@[j]@ == self.statuses@[j]@);
                    assert(has_name(self.statuses@, k));
                }
                if has_name(self.statuses@, k) {
                    let j = choose|j: int|
                        0 <= j < self.statuses@.len() && #[trigger] self.statuses@[j].name@ == k;
                    assert(r@[j]@ == self.statuses@[j]@);
                    assert(has_name(r@, k));
                }
            }
            assert forall|i: int| 0 <= i < r@.len() implies #[trigger] r@[i]@ == self.statuses()[r@[
                i
            ].name@] by {
                assert(r@[i]@ == self.statuses@[i]@);
                Self::lemma_lookup(self.statuses@, i);
            }
            Self::lemma_dom_len(self.statuses@);
        }
        r
    }

    /// There are as many names in the map as statuses in the list.
    proof fn lemma_dom_len(s: Seq<TunnelStatus>)
        requires
            names_unique(s),
        ensures
            status_map(s).dom().finite(),
            status_map(s).dom().len() == s.len(),
        decreases s.len(),
    {
        if s.len() == 0 {
            assert(status_map(s).dom() =~= Set::<Seq<char>>::empty());
        } else {
            let rest = s.drop_last();
            assert(names_unique(rest)) by {
                assert forall|a: int, b: int|
                    0 <= a < rest.len() && 0 <= b < rest.len() && a != b implies #[trigger] rest[a].name@
                    != #[trigger] rest[b].name@ by {
                    assert(s[a].name@ != s[b].name@);
                }
            }
            Self::lemma_dom_len(rest);
            assert(!has_name(rest, s.last().name@)) by {
                if has_name(rest, s.last().name@) {
                    let j = choose|j: int| 0 <= j < rest.len() && #[trigger] rest[j].name@ == s.last().name@;
                    assert(s[j].name@ != s[s.len() - 1].name@);
                }
            }
            Self::lemma_append(rest, s.last());
            assert(rest.push(s.last()) =~= s);
        }
    }
}


/// The operating systems cloudflared is installed for.
#[derive(Debug, Clone, Copy, PartialEq, Eq)]
pub enum TargetOs {
    Windows,
    MacOs,
    Linux,
}

/// The processor families that pick a cloudflared build.
#[derive(Debug, Clone, Copy, PartialEq, Eq)]
pub enum TargetArch {
    Aarch64,
    /// Every other architecture gets the amd64 build.
    Other,
}

/// Where cloudflared's latest release for a platform is downloaded from. Windows gets the
/// amd64 executable whatever the architecture; macOS gets a `.tgz` archive.
pub open spec fn spec_download_url(os: TargetOs, arch: TargetArch) -> Seq<char> {
    match os {
        TargetOs::Windows => "https://github.com/cloudflare/cloudflared/releases/latest/download/cloudflared-windows-amd64.exe"@,
        TargetOs::MacOs => match arch {
            TargetArch::Aarch64 => "https://github.com/cloudflare/cloudflared/releases/latest/download/cloudflared-darwin-arm64.tgz"@,
            TargetArch::Other => "https://github.com/cloudflare/cloudflared/releases/latest/download/cloudflared-darwin-amd64.tgz"@,
        },
        TargetOs::Linux => match arch {
            TargetArch::Aarch64 => "https://github.com/cloudflare/cloudflared/releases/latest/download/cloudflared-linux-arm64"@,
            TargetArch::Other => "https://github.com/cloudflare/cloudflared/releases/latest/download/cloudflared-linux-amd64"@,
        },
    }
}

impl CloudflaredManager {
    /// The download URL of cloudflared for a platform.
    pub fn get_download_url(os: TargetOs, arch: TargetArch) -> (url: &'static str)
        ensures
            url@ == spec_download_url(os, arch),
    {
        match os {
            TargetOs::Windows => "https://github.com/cloudflare/cloudflared/releases/latest/download/cloudflared-windows-amd64.exe",
            TargetOs::MacOs => match arch {
                TargetArch::Aarch64 => "https://github.com/cloudflare/cloudflared/releases/latest/download/cloudflared-darwin-arm64.tgz",
                TargetArch::Other => "https://github.com/cloudflare/cloudflared/releases/latest/download/cloudflared-darwin-amd64.tgz",
            },
            TargetOs::Linux => match arch {
                TargetArch::Aarch64 => "https://github.com/cloudflare/cloudflared/releases/latest/download/cloudflared-linux-arm64",
                TargetArch::Other => "https://github.com/cloudflare/cloudflared/releases/latest/download/cloudflared-linux-amd64",
            },
        }
    }
}


/// Calls `dirs::data_dir`, the user's data directory. What it returns depends on the
/// operating system and the environment, so nothing is stated of it.
#[verifier::external_body]
fn user_data_dir() -> (dir: Option<PathBuf>) {
    dirs::data_dir()
}

/// A character of a plain program name: an ASCII letter or digit, `-` or `_`.
pub open spec fn is_program_name_char(c: char) -> bool {
    ||| ('a' <= c && c <= 'z')
    ||| ('A' <= c && c <= 'Z')
    ||| ('0' <= c && c <= '9')
    ||| c == '-'
    ||| c == '_'
}

/// A plain program name: not empty, and only letters, digits, `-` and `_`, so that it has no
/// path separator and names a file directly.
pub open spec fn is_program_name(name: Seq<char>) -> bool {
    name.len() > 0 && forall|i: int| 0 <= i < name.len() ==> is_program_name_char(#[trigger] name[i])
}

/// A character with ASCII upper case folded to lower case, as a number.
pub open spec fn ascii_fold(c: char) -> int {
    if 'A' <= c && c <= 'Z' {
        c as int + 32
    } else {
        c as int
    }
}

/// A file name found for a program name: it begins with the name, ASCII case aside. On
/// Unix it is the name itself; on Windows the search may add an executable extension and
/// takes the file's own spelling of the name.
pub open spec fn names_program(file: Seq<char>, name: Seq<char>) -> bool {
    name.len() <= file.len() && forall|i: int|
        0 <= i < name.len() ==> ascii_fold(#[trigger] file[i]) == ascii_fold(name[i])
}

/// What a search of the `PATH` for a program may give: nothing, or a file in some directory
/// whose name is the program's.
pub open spec fn found_program(found: Option<FsPathView>, name: Seq<char>) -> bool {
    found matches Some(p) ==> p.segments.len() == 1 && names_program(p.segments[0], name)
}

/// The view of an optional path.
pub open spec fn opt_path_view(p: Option<FsPath>) -> Option<FsPathView> {
    match p {
        Some(p) => Some(p@),
        None => None,
    }
}

/// Calls `which::which(name)`: the first executable of that name on the `PATH`, given as its
/// directory and its file name, or none when the search fails. For a name without a path
/// separator, `which` tries the name joined to each directory of the `PATH` (on Windows also
/// with each `PATHEXT` extension added, and with the file's own ASCII case), so a file it
/// finds is named for the program. Which file it finds, if any, depends on the environment
/// and the disk, and is not stated.
#[verifier::external_body]
fn find_on_path(name: &str) -> (found: Option<FsPath>)
    requires
        is_program_name(name@),
    ensures
        found_program(opt_path_view(found), name@),
{
    let p = which::which(name).ok()?;
    let file = p.file_name()?.to_string_lossy().into_owned();
    Some(FsPath { root: p.parent().map(|d| d.to_path_buf()), segments: vec![file] })
}

/// The program searched for on the `PATH`.
pub open spec fn path_program() -> Seq<char> {
    "cloudflared"@
}

/// The program searched for on the `PATH`.
pub fn path_program_name() -> (name: &'static str)
    ensures
        name@ == path_program(),
        is_program_name(name@),
{
    let name = "cloudflared";
    proof {
        reveal_strlit("cloudflared");
    }
    name
}

/// The name of the cloudflared executable on a platform.
pub open spec fn spec_binary_file_name(os: TargetOs) -> Seq<char> {
    match os {
        TargetOs::Windows => "cloudflared.exe"@,
        _ => "cloudflared"@,
    }
}

/// Where the managed copy of cloudflared lives below a data directory (the current directory
/// when the system reports none).
pub open spec fn spec_binary_path(data_dir: Option<PathBuf>, os: TargetOs) -> FsPathView {
    FsPathView { root: data_dir, segments: seq!["tunnelforge"@, spec_binary_file_name(os)] }
}

/// Whether cloudflared is available, given whether the managed copy exists and what the
/// search of the `PATH` found.
pub open spec fn spec_installed(managed_exists: bool, found: Option<FsPathView>) -> bool {
    managed_exists || found is Some
}

/// The cloudflared to run: the managed copy when it exists, else what the search of the
/// `PATH` found.
pub open spec fn spec_resolved_binary(
    managed: FsPathView,
    managed_exists: bool,
    found: Option<FsPathView>,
) -> Option<FsPathView> {
    if managed_exists {
        Some(managed)
    } else {
        found
    }
}

impl CloudflaredManager {
    /// The name of the cloudflared executable on a platform.
    pub fn binary_file_name(os: TargetOs) -> (name: &'static str)
        ensures
            name@ == spec_binary_file_name(os),
    {
        match os {
            TargetOs::Windows => "cloudflared.exe",
            _ => "cloudflared",
        }
    }

    /// The path of the managed cloudflared below a given data directory.
    pub fn binary_path_from(data_dir: Option<PathBuf>, os: TargetOs) -> (path: FsPath)
        ensures
            path@ == spec_binary_path(data_dir, os),
    {
        let ghost d = data_dir;
        let path = FsPath::from_root(data_dir).join(String::from_str("tunnelforge")).join(
            String::from_str(Self::binary_file_name(os)),
        );
        assert(path@.segments =~= spec_binary_path(d, os).segments);
        path
    }

    /// The expected path of the managed cloudflared for a platform, below the user's data
    /// directory. Creating the directory is left to the caller.
    pub fn get_binary_path(os: TargetOs) -> (path: FsPath)
        ensures
            exists|data_dir: Option<PathBuf>| path@ == #[trigger] spec_binary_path(data_dir, os),
    {
        let data_dir = user_data_dir();
        let ghost d = data_dir;
        let path = Self::binary_path_from(data_dir, os);
        assert(path@ == spec_binary_path(d, os));
        path
    }

    /// Whether cloudflared is available, given whether the managed copy exists and what the
    /// search of the `PATH` found.
    pub fn installed_from(managed_exists: bool, found: Option<FsPath>) -> (installed: bool)
        ensures
            installed == spec_installed(managed_exists, opt_path_view(found)),
    {
        managed_exists || found.is_some()
    }

    /// The cloudflared to run, given whether the managed copy exists and what the search of
    /// the `PATH` found.
    pub fn resolve_binary_from(managed: FsPath, managed_exists: bool, found: Option<FsPath>) -> (binary:
        Option<FsPath>)
        ensures
            opt_path_view(binary) == spec_resolved_binary(managed@, managed_exists, opt_path_view(found)),
    {
        if managed_exists {
            Some(managed)
        } else {
            found
        }
    }

    /// Whether cloudflared is available: the managed copy exists, or a `cloudflared` is on
    /// the `PATH`. The `PATH` is searched, for `cloudflared`, only when the managed copy is
    /// missing; what the search finds depends on the environment and the disk, so the answer
    /// in that case is `installed_from` of a search result that is not stated beyond its name.
    pub fn is_installed(managed_exists: bool) -> (installed: bool)
        ensures
            managed_exists ==> installed,
            exists|found: Option<FsPathView>|
                found_program(found, path_program()) && installed == #[trigger] spec_installed(
                    managed_exists,
                    found,
                ),
    {
        if managed_exists {
            assert(found_program(None, path_program()) && true == spec_installed(managed_exists, None));
            return true;
        }
        let found = find_on_path(path_program_name());
        let ghost f = opt_path_view(found);
        let installed = Self::installed_from(managed_exists, found);
        assert(found_program(f, path_program()) && installed == spec_installed(managed_exists, f));
        installed
    }

    /// The cloudflared to run: the managed copy when it exists, else the `cloudflared` that the
    /// search of the `PATH` finds, which is a file named for it. Whether the search finds one
    /// depends on the environment and the disk, so the result in that case is
    /// `resolve_binary_from` of a search result that is not stated beyond its name.
    pub fn resolve_binary(managed: FsPath, managed_exists: bool) -> (binary: Option<FsPath>)
        ensures
            managed_exists ==> (binary matches Some(b) && b@ == managed@),
            !managed_exists ==> found_program(opt_path_view(binary), path_program()),
            exists|found: Option<FsPathView>|
                found_program(found, path_program()) && #[trigger] spec_resolved_binary(
                    managed@,
                    managed_exists,
                    found,
                ) == opt_path_view(binary),
    {
        if managed_exists {
            let ghost m = managed@;
            let b = Some(managed);
            assert(found_program(None, path_program()) && spec_resolved_binary(m, managed_exists, None)
                == opt_path_view(b));
            return b;
        }
        let found = find_on_path(path_program_name());
        let ghost f = opt_path_view(found);
        let ghost m = managed@;
        let binary = Self::resolve_binary_from(managed, managed_exists, found);
        assert(found_program(f, path_program()) && spec_resolved_binary(m, managed_exists, f)
            == opt_path_view(binary));
        binary
    }
}

/// A program to launch and its arguments.
#[derive(Debug, Clone, PartialEq)]
pub struct LaunchCommand {
    pub binary: FsPath,
    pub args: Vec<String>,
}

/// The error when no cloudflared can be found to start a tunnel.
pub open spec fn binary_not_found_message() -> Seq<char> {
    "cloudflared binary not found. Please install it first."@
}

/// The arguments that run a tunnel from its config file.
pub open spec fn spec_config_run_args(config_path: Seq<char>) -> Seq<Seq<char>> {
    seq!["tunnel"@, "--config"@, config_path, "run"@]
}

/// The arguments that run a tunnel managed by a Cloudflare token.
pub open spec fn spec_token_run_args(token: Seq<char>) -> Seq<Seq<char>> {
    seq!["tunnel"@, "run"@, "--token"@, token]
}

/// The outcome of deciding how to launch cloudflared: the binary and its arguments, or the
/// error the caller reports.
pub open spec fn spec_launch(binary: Option<FsPath>, args: Seq<Seq<char>>, missing: Seq<char>) -> Result<
    (FsPathView, Seq<Seq<char>>),
    Seq<char>,
> {
    match binary {
        Some(b) => Ok((b@, args)),
        None => Err(missing),
    }
}

/// The view of a launch decision.
pub open spec fn launch_view(r: Result<LaunchCommand, String>) -> Result<
    (FsPathView, Seq<Seq<char>>),
    Seq<char>,
> {
    match r {
        Ok(c) => Ok((c.binary@, strings_view(c.args@))),
        Err(e) => Err(e@),
    }
}

impl CloudflaredManager {
    /// How `start_tunnel` launches cloudflared for a tunnel with a config file, given the
    /// binary that was resolved.
    pub fn start_tunnel_command(binary: Option<FsPath>, config_path: &str) -> (r: Result<
        LaunchCommand,
        String,
    >)
        ensures
            launch_view(r) == spec_launch(
                binary,
                spec_config_run_args(config_path@),
                binary_not_found_message(),
            ),
    {
        match binary {
            None => Err(String::from_str("cloudflared binary not found. Please install it first.")),
            Some(b) => {
                let mut args: Vec<String> = Vec::new();
                args.push(String::from_str("tunnel"));
                args.push(String::from_str("--config"));
                args.push(String::from_str(config_path));
                args.push(String::from_str("run"));
                assert(strings_view(args@) =~= spec_config_run_args(config_path@));
                Ok(LaunchCommand { binary: b, args })
            },
        }
    }

    /// How `start_tunnel_with_token` launches cloudflared for a token-managed tunnel, given
    /// the binary that was resolved.
    pub fn start_tunnel_with_token_command(binary: Option<FsPath>, token: &str) -> (r: Result<
        LaunchCommand,
        String,
    >)
        ensures
            launch_view(r) == spec_launch(
                binary,
                spec_token_run_args(token@),
                binary_not_found_message(),
            ),
    {
        match binary {
            None => Err(String::from_str("cloudflared binary not found. Please install it first.")),
            Some(b) => {
                let mut args: Vec<String> = Vec::new();
                args.push(String::from_str("tunnel"));
                args.push(String::from_str("run"));
                args.push(String::from_str("--token"));
                args.push(String::from_str(token));
                assert(strings_view(args@) =~= spec_token_run_args(token@));
                Ok(LaunchCommand { binary: b, args })
            },
        }
    }
}


impl Default for CloudflaredManager {
    fn default() -> (m: CloudflaredManager)
        ensures
            m.statuses() == Map::<Seq<char>, TunnelStatusView>::empty(),
            m.holds() == Set::<Seq<char>>::empty(),
    {
        Self::new()
    }
}

/// The download is a `.tgz` archive, to be unpacked, rather than the executable itself.
pub open spec fn is_archive_url(url: Seq<char>) -> bool {
    url.len() >= 4 && occurs_at(url, ".tgz"@, url.len() - 4)
}

impl CloudflaredManager {
    /// Whether the download at `url` is a `.tgz` archive (the macOS builds) that is unpacked
    /// after download, rather than the executable itself.
    pub fn is_archive_download(url: &str) -> (archive: bool)
        ensures
            archive == is_archive_url(url@),
    {
        let chars = chars_of(url);
        let suffix = chars_of(".tgz");
        if chars.len() < 4 {
            return false;
        }
        matches_at(&chars, &suffix, chars.len() - 4)
    }
}

} // verus!
