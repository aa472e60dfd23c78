//! Bookkeeping of a server node: its bounded in-memory log, which edges
//! count as online, and which visitor and data listeners must run for the
//! port plan pushed by the hub.

use vstd::prelude::*;
use dashmap::DashMap;
use crate::codec::{is_uuid_text, new_uuid_text};
use crate::common::{HubPeerInfo, PeerRole};
use crate::port_plan::PortBinding;
use crate::text::{decimal, str_eq};

verus! {

// ---------------------------------------------------------------------------
// Log
// ---------------------------------------------------------------------------

/// How many log entries a server keeps.
pub const LOG_CAPACITY: usize = 2000;

/// One entry of the server's log.
pub struct LogEntry {
    pub id: String,
    /// RFC 3339 time of the entry, in UTC.
    pub timestamp: String,
    pub level: String,
    pub target: String,
    pub node_id: Option<String>,
    pub message: String,
}

impl Clone for LogEntry {
    fn clone(&self) -> (r: Self)
        ensures
            r == *self,
    {
        LogEntry {
            id: self.id.clone(),
            timestamp: self.timestamp.clone(),
            level: self.level.clone(),
            target: self.target.clone(),
            node_id: self.node_id.clone(),
            message: self.message.clone(),
        }
    }
}

/// The shape every UTC time stamp of the log has: at least the 20
/// characters of `YYYY-MM-DDTHH:MM:SSZ`, and `Z` (no offset) at the end.
pub open spec fn is_utc_stamp(s: Seq<char>) -> bool {
    s.len() >= 20 && s.last() == 'Z'
}

/// Calls `chrono::Utc::now().to_rfc3339_opts(SecondsFormat::AutoSi, true)`:
/// the current time as RFC 3339 text with as many fraction digits as the
/// time needs and `Z` for the zero offset. Which time it is depends on the
/// clock, so only the shape of the text is stated.
#[verifier::external_body]
fn utc_now_text() -> (r: String)
    ensures
        is_utc_stamp(r@),
{
    chrono::Utc::now().to_rfc3339_opts(chrono::SecondsFormat::AutoSi, true)
}

/// The last `n` items of `s` (all of them when there are fewer).
pub open spec fn keep_last<T>(s: Seq<T>, n: nat) -> Seq<T> {
    if s.len() <= n {
        s
    } else {
        s.skip(s.len() - n)
    }
}

/// The server's log: the most recent entries, oldest first.
pub struct ServerLog {
    entries: Vec<LogEntry>,
}

impl View for ServerLog {
    type V = Seq<LogEntry>;

    closed spec fn view(&self) -> Seq<LogEntry> {
        self.entries@
    }
}

impl ServerLog {
    pub fn new() -> (r: Self)
        ensures
            r@ == Seq::<LogEntry>::empty(),
    {
        ServerLog { entries: Vec::new() }
    }

    /// The number of entries kept.
    pub fn len(&self) -> (r: usize)
        ensures
            r == self@.len(),
    {
        self.entries.len()
    }

    /// Appends `entry` and keeps only the `LOG_CAPACITY` most recent
    /// entries.
    pub fn push(&mut self, entry: LogEntry)
        requires
            old(self)@.len() <= LOG_CAPACITY,
        ensures
            final(self)@ == keep_last(old(self)@.push(entry), LOG_CAPACITY as nat),
            final(self)@.len() <= LOG_CAPACITY,
    {
        let ghost all = self.entries@.push(entry);
        self.entries.push(entry);
        if self.entries.len() > LOG_CAPACITY {
            let drain = self.entries.len() - LOG_CAPACITY;
            let mut k: usize = 0;
            while k < drain
                invariant
                    k <= drain,
                    all.len() == LOG_CAPACITY + drain,
                    self.entries@ == all.skip(k as int),
                decreases drain - k,
            {
                self.entries.remove(0);
                assert(self.entries@ =~= all.skip(k + 1));
                k = k + 1;
            }
        }
    }

    /// Records a new entry stamped with a fresh id and the current time.
    pub fn push_log(&mut self, level: &str, target: &str, node_id: Option<String>, message: String)
        requires
            old(self)@.len() <= LOG_CAPACITY,
        ensures
            final(self)@.len() <= LOG_CAPACITY,
            final(self)@.len() > 0,
            ({
                let e = final(self)@.last();
                &&& e.level@ == level@
                &&& e.target@ == target@
                &&& e.node_id == node_id
                &&& e.message == message
                &&& is_uuid_text(e.id@)
                &&& is_utc_stamp(e.timestamp@)
            }),
            final(self)@.drop_last() == keep_last(old(self)@, (LOG_CAPACITY - 1) as nat),
    {
        let entry = LogEntry {
            id: new_uuid_text(),
            timestamp: utc_now_text(),
            level: level.to_owned(),
            target: target.to_owned(),
            node_id,
            message,
        };
        let ghost e = entry;
        let ghost before = self@;
        self.push(entry);
        proof {
            let all = before.push(e);
            if all.len() > LOG_CAPACITY {
                assert(all.skip(all.len() - LOG_CAPACITY).drop_last() =~= before.skip(
                    before.len() - (LOG_CAPACITY - 1),
                ));
            } else {
                assert(all.drop_last() =~= before);
            }
        }
    }

    /// Up to `n` entries, newest first.
    pub fn recent(&self, n: usize) -> (r: Vec<LogEntry>)
        ensures
            r@ == keep_last(self@, n as nat).reverse(),
    {
        let len = self.entries.len();
        let mut out: Vec<LogEntry> = Vec::new();
        let mut i: usize = len;
        let ghost want = keep_last(self@, n as nat).reverse();
        while i > 0 && out.len() < n
            invariant
                i <= len == self.entries@.len(),
                out@.len() == len - i,
                out@.len() <= n,
                forall|j: int| 0 <= j < out@.len() ==> out@[j] == self.entries@[len - 1 - j],
            decreases i,
        {
            out.push(self.entries[i - 1].clone());
            i = i - 1;
        }
        proof {
            let k = keep_last(self@, n as nat);
            assert(out@.len() == k.len());
            assert forall|j: int| 0 <= j < out@.len() implies out@[j] == want[j] by {
                assert(want[j] == k[k.len() - 1 - j]);
                if self@.len() > n {
                    assert(k[k.len() - 1 - j] == self@[self@.len() - n + (k.len() - 1 - j)]);
                }
            }
            assert(out@ =~= want);
        }
        out
    }

    /// Up to `n` entries about node `node_id`, newest first.
    pub fn recent_for_node(&self, node_id: &str, n: usize) -> (r: Vec<LogEntry>)
        ensures
            r@ == keep_last(self@.filter(|e: LogEntry| about_node(e, node_id@)), n as nat).reverse(),
    {
        let ghost about = |e: LogEntry| about_node(e, node_id@);
        let mut matching: Vec<LogEntry> = Vec::new();
        let mut i: usize = 0;
        while i < self.entries.len()
            invariant
                i <= self.entries.len(),
                about == (|e: LogEntry| about_node(e, node_id@)),
                matching@ == self.entries@.take(i as int).filter(about),
            decreases self.entries.len() - i,
        {
            let e = &self.entries[i];
            let hit = match &e.node_id {
                Some(id) => str_eq(id.as_str(), node_id),
                None => false,
            };
            proof {
                reveal_with_fuel(Seq::filter, 1);
                assert(self.entries@.take(i + 1).drop_last() =~= self.entries@.take(i as int));
                assert(self.entries@.take(i + 1).last() == self.entries@[i as int]);
            }
            if hit {
                matching.push(e.clone());
            }
            i = i + 1;
        }
        assert(self.entries@.take(i as int) =~= self.entries@);
        let sub = ServerLog { entries: matching };
        sub.recent(n)
    }
}

/// The entry is about node `node_id`.
pub open spec fn about_node(e: LogEntry, node_id: Seq<char>) -> bool {
    match e.node_id {
        Some(id) => id@ == node_id,
        None => false,
    }
}

/// The log never holds more than `LOG_CAPACITY` entries, and its newest
/// entry is the one pushed last.
pub proof fn log_keeps_newest(log: Seq<LogEntry>, e: LogEntry)
    requires
        log.len() <= LOG_CAPACITY,
    ensures
        keep_last(log.push(e), LOG_CAPACITY as nat).len() <= LOG_CAPACITY,
        keep_last(log.push(e), LOG_CAPACITY as nat).last() == e,
        log.len() < LOG_CAPACITY ==> keep_last(log.push(e), LOG_CAPACITY as nat) == log.push(e),
{
}

// ---------------------------------------------------------------------------
// Online edges
// ---------------------------------------------------------------------------

/// The roster entry is an online edge.
pub open spec fn is_online_edge(p: HubPeerInfo) -> bool {
    p.online && p.role == PeerRole::Edge
}

/// How many roster entries are online edges.
pub open spec fn online_edges(peers: Seq<HubPeerInfo>) -> nat
    decreases peers.len(),
{
    if peers.len() == 0 {
        0
    } else {
        online_edges(peers.drop_last()) + if is_online_edge(peers.last()) {
            1nat
        } else {
            0nat
        }
    }
}

/// Whether edge `node_id` can be reached: online in the hub's roster, or
/// connected to this node directly (`connected_here`).
pub fn edge_online_via_hub(hub_peers: &Vec<HubPeerInfo>, node_id: &str, connected_here: bool) -> (r: bool)
    ensures
        r == ((exists|i: int|
            0 <= i < hub_peers@.len() && #[trigger] hub_peers@[i].node_id@ == node_id@ && is_online_edge(
                hub_peers@[i],
            )) || connected_here),
{
    let mut i: usize = 0;
    while i < hub_peers.len()
        invariant
            i <= hub_peers.len(),
            forall|j: int|
                0 <= j < i ==> !(#[trigger] hub_peers@[j].node_id@ == node_id@ && is_online_edge(
                    hub_peers@[j],
                )),
        decreases hub_peers.len() - i,
    {
        let p = &hub_peers[i];
        if p.online && p.role == PeerRole::Edge && str_eq(p.node_id.as_str(), node_id) {
            return true;
        }
        i = i + 1;
    }
    connected_here
}

/// The number of online nodes shown on the dashboard: the larger of the
/// directly connected nodes and the online edges in the hub's roster.
pub fn nodes_online(hub_peers: &Vec<HubPeerInfo>, connected_here: usize) -> (r: u64)
    ensures
        r == if connected_here >= online_edges(hub_peers@) {
            connected_here as int
        } else {
            online_edges(hub_peers@) as int
        },
{
    let mut n: usize = 0;
    let mut i: usize = 0;
    while i < hub_peers.len()
        invariant
            i <= hub_peers.len(),
            n == online_edges(hub_peers@.take(i as int)),
            n <= i,
        decreases hub_peers.len() - i,
    {
        assert(hub_peers@.take(i + 1).drop_last() =~= hub_peers@.take(i as int));
        if hub_peers[i].online && hub_peers[i].role == PeerRole::Edge {
            n = n + 1;
        }
        i = i + 1;
    }
    assert(hub_peers@.take(i as int) =~= hub_peers@);
    if connected_here >= n {
        connected_here as u64
    } else {
        n as u64
    }
}

// ---------------------------------------------------------------------------
// Visitors waiting for an edge's direct dial
// ---------------------------------------------------------------------------

/// A visitor waiting for its edge to dial the data port directly. The
/// visitor's stream itself is held by the caller under the same id.
pub struct PendingDirect {
    pub connection_id: String,
    pub data_token: String,
    pub node_id: String,
    pub local_addr: String,
    pub protocol: String,
    /// Monotonic time of creation, in milliseconds.
    pub created_at_ms: u64,
}

pub struct PendingDirectView {
    pub connection_id: Seq<char>,
    pub data_token: Seq<char>,
    pub node_id: Seq<char>,
    pub local_addr: Seq<char>,
    pub protocol: Seq<char>,
    pub created_at_ms: u64,
}

impl View for PendingDirect {
    type V = PendingDirectView;

    open spec fn view(&self) -> PendingDirectView {
        PendingDirectView {
            connection_id: self.connection_id@,
            data_token: self.data_token@,
            node_id: self.node_id@,
            local_addr: self.local_addr@,
            protocol: self.protocol@,
            created_at_ms: self.created_at_ms,
        }
    }
}

impl Clone for PendingDirect {
    fn clone(&self) -> (r: Self)
        ensures
            r@ == self@,
    {
        PendingDirect {
            connection_id: self.connection_id.clone(),
            data_token: self.data_token.clone(),
            node_id: self.node_id.clone(),
            local_addr: self.local_addr.clone(),
            protocol: self.protocol.clone(),
            created_at_ms: self.created_at_ms,
        }
    }
}

/// What a direct dial that presented its handshake leads to.
pub enum DirectArrival {
    /// No visitor waits under this connection id.
    Unknown,
    /// The data token does not match.
    BadToken,
    /// The waiting visitor, now taken out of the table.
    Accept(PendingDirect),
}

/// What a direct-dial map holds, by connection id.
pub uninterp spec fn direct_table(m: DashMap<String, PendingDirect>) -> Map<Seq<char>, PendingDirectView>;

/// Calls `DashMap::new`: an empty map.
#[verifier::external_body]
fn direct_new() -> (r: DashMap<String, PendingDirect>)
    ensures
        direct_table(r).dom() == Set::<Seq<char>>::empty(),
{
    DashMap::new()
}

/// Calls `DashMap::get` and copies the entry found under `id`.
#[verifier::external_body]
fn direct_get(m: &DashMap<String, PendingDirect>, id: &str) -> (r: Option<PendingDirect>)
    ensures
        match r {
            Some(p) => direct_table(*m).contains_key(id@) && p@ == direct_table(*m)[id@],
            None => !direct_table(*m).contains_key(id@),
        },
{
    m.get(id).map(|e| e.value().clone())
}

/// Calls `DashMap::insert`: `id` now maps to `p`, replacing what was there.
#[verifier::external_body]
fn direct_insert(m: &mut DashMap<String, PendingDirect>, id: String, p: PendingDirect)
    ensures
        direct_table(*final(m)) == direct_table(*old(m)).insert(id@, p@),
{
    m.insert(id, p);
}

/// Calls `DashMap::remove`: `id` maps to nothing afterwards.
#[verifier::external_body]
fn direct_remove(m: &mut DashMap<String, PendingDirect>, id: &str)
    ensures
        direct_table(*final(m)) == direct_table(*old(m)).remove(id@),
{
    m.remove(id);
}

/// Calls `DashMap::retain`, keeping the entries younger than `max_age_ms`
/// at time `now_ms` (the test is `is_direct_fresh`).
#[verifier::external_body]
fn direct_retain_fresh(m: &mut DashMap<String, PendingDirect>, now_ms: u64, max_age_ms: u64)
    ensures
        direct_table(*final(m)) == direct_table(*old(m)).restrict(
            direct_table(*old(m)).dom().filter(
                |k: Seq<char>| direct_fresh(direct_table(*old(m))[k], now_ms, max_age_ms),
            ),
        ),
{
    m.retain(|_, p| is_direct_fresh(p, now_ms, max_age_ms));
}

/// The visitor has waited at most `max_age_ms` at time `now_ms`.
pub open spec fn direct_fresh(p: PendingDirectView, now_ms: u64, max_age_ms: u64) -> bool {
    if now_ms >= p.created_at_ms {
        now_ms - p.created_at_ms <= max_age_ms
    } else {
        true
    }
}

/// Whether `p` has waited at most `max_age_ms` at time `now_ms` (a clock
/// that went back counts as no time passed).
pub fn is_direct_fresh(p: &PendingDirect, now_ms: u64, max_age_ms: u64) -> (r: bool)
    ensures
        r == direct_fresh(p@, now_ms, max_age_ms),
{
    if now_ms >= p.created_at_ms {
        now_ms - p.created_at_ms <= max_age_ms
    } else {
        true
    }
}

/// The visitors waiting for a direct dial, by connection id.
pub struct DirectTable {
    entries: DashMap<String, PendingDirect>,
}

impl View for DirectTable {
    type V = Map<Seq<char>, PendingDirectView>;

    closed spec fn view(&self) -> Map<Seq<char>, PendingDirectView> {
        direct_table(self.entries)
    }
}

impl DirectTable {
    /// Every entry is filed under its own connection id.
    pub open spec fn wf(&self) -> bool {
        forall|k: Seq<char>| #[trigger] self@.contains_key(k) ==> self@[k].connection_id == k
    }

    pub fn new() -> (r: Self)
        ensures
            r.wf(),
            r@.dom() == Set::<Seq<char>>::empty(),
    {
        DirectTable { entries: direct_new() }
    }

    /// Files a waiting visitor under its connection id.
    pub fn register(&mut self, p: PendingDirect)
        requires
            old(self).wf(),
        ensures
            final(self).wf(),
            final(self)@ == old(self)@.insert(p.connection_id@, p@),
    {
        let key = p.connection_id.clone();
        direct_insert(&mut self.entries, key, p);
    }

    /// Whether a visitor still waits under `cid`.
    pub fn contains(&self, cid: &str) -> (r: bool)
        ensures
            r == self@.contains_key(cid@),
    {
        direct_get(&self.entries, cid).is_some()
    }

    /// Takes out the visitor waiting under `cid`, if any.
    pub fn take(&mut self, cid: &str) -> (r: Option<PendingDirect>)
        requires
            old(self).wf(),
        ensures
            final(self).wf(),
            match r {
                Some(p) => old(self)@.contains_key(cid@) && p@ == old(self)@[cid@]
                    && final(self)@ == old(self)@.remove(cid@),
                None => !old(self)@.contains_key(cid@) && final(self)@ == old(self)@,
            },
    {
        match direct_get(&self.entries, cid) {
            Some(p) => {
                direct_remove(&mut self.entries, cid);
                proof {
                    assert forall|k: Seq<char>| #[trigger] self@.contains_key(k) implies self@[k].connection_id == k by {
                        assert(old(self)@.contains_key(k));
                    }
                }
                Some(p)
            },
            None => None,
        }
    }

    /// An edge dialed the data port directly and presented connection id
    /// `cid` and token `token`: unknown ids and wrong tokens are refused and
    /// leave the table as it is; otherwise the waiting visitor is handed
    /// out and leaves the table.
    pub fn on_direct_data(&mut self, cid: &str, token: &str) -> (r: DirectArrival)
        requires
            old(self).wf(),
        ensures
            final(self).wf(),
            !old(self)@.contains_key(cid@) ==> (r is Unknown && final(self)@ == old(self)@),
            old(self)@.contains_key(cid@) && old(self)@[cid@].data_token != token@ ==> (r is BadToken
                && final(self)@ == old(self)@),
            old(self)@.contains_key(cid@) && old(self)@[cid@].data_token == token@ ==> (r matches DirectArrival::Accept(p)
                && p@ == old(self)@[cid@] && final(self)@ == old(self)@.remove(cid@)),
    {
        match direct_get(&self.entries, cid) {
            None => DirectArrival::Unknown,
            Some(p) => {
                if !str_eq(p.data_token.as_str(), token) {
                    DirectArrival::BadToken
                } else {
                    direct_remove(&mut self.entries, cid);
                    proof {
                        assert forall|k: Seq<char>| #[trigger] self@.contains_key(k) implies self@[k].connection_id == k by {
                            assert(old(self)@.contains_key(k));
                        }
                    }
                    DirectArrival::Accept(p)
                }
            },
        }
    }

    /// Drops the visitors that waited more than `max_age_ms` at `now_ms`.
    pub fn cleanup(&mut self, now_ms: u64, max_age_ms: u64)
        requires
            old(self).wf(),
        ensures
            final(self).wf(),
            forall|k: Seq<char>|
                final(self)@.contains_key(k) <==> old(self)@.contains_key(k) && direct_fresh(
                    old(self)@[k],
                    now_ms,
                    max_age_ms,
                ),
            forall|k: Seq<char>| #[trigger] final(self)@.contains_key(k) ==> final(self)@[k] == old(self)@[k],
    {
        direct_retain_fresh(&mut self.entries, now_ms, max_age_ms);
        proof {
            assert forall|k: Seq<char>| #[trigger] self@.contains_key(k) implies self@[k].connection_id == k by {
                assert(old(self)@.contains_key(k));
            }
        }
    }
}

// ---------------------------------------------------------------------------
// Listeners of the port plan
// ---------------------------------------------------------------------------

/// A listener the server runs for the port plan.
#[derive(PartialEq, Eq, Structural, Clone, Copy, Debug, Hash)]
pub enum ListenerKey {
    /// A visitor entry on this port.
    Visitor(u16),
    /// A data port edges dial for direct tunnels.
    Data(u16),
}

impl ListenerKey {
    /// The key's text, `v:<port>` or `d:<port>`.
    pub fn text(&self) -> (r: String)
        ensures
            r@ == match self {
                ListenerKey::Visitor(p) => seq!['v', ':'] + decimal(*p as nat),
                ListenerKey::Data(p) => seq!['d', ':'] + decimal(*p as nat),
            },
    {
        let mut v: Vec<char> = Vec::new();
        match self {
            ListenerKey::Visitor(p) => {
                v.push('v');
                v.push(':');
                crate::text::push_decimal(&mut v, *p as u64);
            },
            ListenerKey::Data(p) => {
                v.push('d');
                v.push(':');
                crate::text::push_decimal(&mut v, *p as u64);
            },
        }
        crate::text::string_from(v.as_slice())
    }
}

/// A listener to start, with the route that asked for it.
pub struct ListenerStart {
    pub key: ListenerKey,
    pub route_id: String,
}

/// The listeners that the enabled mappings of `bs` need.
pub open spec fn desired_keys(bs: Seq<PortBinding>) -> Set<ListenerKey> {
    Set::new(
        |k: ListenerKey|
            exists|i: int|
                0 <= i < bs.len() && bs[i].enabled && (k == ListenerKey::Visitor(
                    (#[trigger] bs[i]).visitor_port,
                ) || (bs[i].data_port is Some && k == ListenerKey::Data(bs[i].data_port->0))),
    )
}

/// Whether mapping `b` needs listener `k`.
pub open spec fn needs_listener(b: PortBinding, k: ListenerKey) -> bool {
    b.enabled && (k == ListenerKey::Visitor(b.visitor_port) || (b.data_port is Some && k
        == ListenerKey::Data(b.data_port->0)))
}

/// The index of the first mapping of `bs` that needs listener `k`, or -1.
pub open spec fn first_needing(bs: Seq<PortBinding>, k: ListenerKey) -> int
    decreases bs.len(),
{
    if bs.len() == 0 {
        -1
    } else if needs_listener(bs[0], k) {
        0
    } else {
        let r = first_needing(bs.drop_first(), k);
        if r < 0 {
            -1
        } else {
            r + 1
        }
    }
}

proof fn lemma_first_needing(bs: Seq<PortBinding>, k: ListenerKey, b: int)
    requires
        0 <= b < bs.len(),
        needs_listener(bs[b], k),
        forall|m: int| 0 <= m < b ==> !needs_listener(#[trigger] bs[m], k),
    ensures
        first_needing(bs, k) == b,
    decreases b,
{
    if b > 0 {
        assert(!needs_listener(bs[0], k));
        assert forall|m: int| 0 <= m < b - 1 implies !needs_listener(#[trigger] bs.drop_first()[m], k) by {
            assert(bs.drop_first()[m] == bs[m + 1]);
        }
        assert(bs.drop_first()[b - 1] == bs[b]);
        lemma_first_needing(bs.drop_first(), k, b - 1);
    }
}

/// Which running listeners to stop and which to start so that exactly the
/// listeners of the plan `bindings` run, given the ones running now.
/// Running listeners that the plan still needs are left alone; each needed
/// listener is started once, for the first mapping that needs it.
pub fn plan_listeners(bindings: &Vec<PortBinding>, running: &Vec<ListenerKey>) -> (r: (
    Vec<ListenerKey>,
    Vec<ListenerStart>,
))
    ensures
        forall|j: int|
            0 <= j < r.0@.len() ==> running@.contains(#[trigger] r.0@[j]) && !desired_keys(
                bindings@,
            ).contains(r.0@[j]),
        forall|k: ListenerKey|
            running@.contains(k) && !desired_keys(bindings@).contains(k) ==> r.0@.contains(k),
        forall|j: int|
            0 <= j < r.1@.len() ==> desired_keys(bindings@).contains((#[trigger] r.1@[j]).key)
                && !running@.contains(r.1@[j].key),
        forall|k: ListenerKey|
            desired_keys(bindings@).contains(k) && !running@.contains(k) ==> exists|j: int|
                0 <= j < r.1@.len() && (#[trigger] r.1@[j]).key == k,
        forall|a: int, b: int| 0 <= a < b < r.1@.len() ==> (#[trigger] r.1@[a]).key != (#[trigger] r.1@[b]).key,
        forall|j: int|
            0 <= j < r.1@.len() ==> 0 <= first_needing(bindings@, (#[trigger] r.1@[j]).key) < bindings@.len()
                && r.1@[j].route_id@ == bindings@[first_needing(bindings@, r.1@[j].key)].route_id@,
{
    let ghost want = desired_keys(bindings@);
    let mut stop: Vec<ListenerKey> = Vec::new();
    let mut i: usize = 0;
    while i < running.len()
        invariant
            i <= running.len(),
            want == desired_keys(bindings@),
            forall|j: int|
                0 <= j < stop@.len() ==> running@.contains(#[trigger] stop@[j]) && !want.contains(
                    stop@[j],
                ),
            forall|j: int| 0 <= j < i && !want.contains(#[trigger] running@[j]) ==> stop@.contains(running@[j]),
        decreases running.len() - i,
    {
        let k = running[i];
        let ghost stop0 = stop@;
        if !is_desired(bindings, k) {
            stop.push(k);
            proof {
                assert(stop@[stop0.len() as int] == k);
            }
        }
        proof {
            assert forall|j: int| 0 <= j < i + 1 && !want.contains(#[trigger] running@[j]) implies stop@.contains(
                running@[j],
            ) by {
                if j < i {
                    let w = choose|w: int| 0 <= w < stop0.len() && stop0[w] == running@[j];
                    assert(stop@[w] == stop0[w]);
                }
            }
        }
        i = i + 1;
    }
    let mut start: Vec<ListenerStart> = Vec::new();
    let mut b: usize = 0;
    while b < bindings.len()
        invariant
            b <= bindings.len(),
            want == desired_keys(bindings@),
            forall|j: int|
                0 <= j < start@.len() ==> want.contains((#[trigger] start@[j]).key) && !running@.contains(
                    start@[j].key,
                ),
            forall|k: ListenerKey, m: int|
                0 <= m < b && #[trigger] needs_listener(bindings@[m], k) && !running@.contains(k) ==> exists|j: int|
                    0 <= j < start@.len() && (#[trigger] start@[j]).key == k,
            forall|x: int, y: int| 0 <= x < y < start@.len() ==> (#[trigger] start@[x]).key != (#[trigger] start@[y]).key,
            forall|j: int|
                0 <= j < start@.len() ==> 0 <= first_needing(bindings@, (#[trigger] start@[j]).key) < bindings@.len()
                    && start@[j].route_id@ == bindings@[first_needing(bindings@, start@[j].key)].route_id@,
        decreases bindings.len() - b,
    {
        let m = &bindings[b];
        let ghost start0 = start@;
        if m.enabled {
            let kv = ListenerKey::Visitor(m.visitor_port);
            proof {
                assert(needs_listener(bindings@[b as int], kv));
                assert(want.contains(kv));
            }
            if !contains_key(running, kv) && !started(&start, kv) {
                proof {
                    assert forall|mm: int| 0 <= mm < b implies !needs_listener(#[trigger] bindings@[mm], kv) by {
                        if needs_listener(bindings@[mm], kv) {
                            let w = choose|w: int| 0 <= w < start@.len() && (#[trigger] start@[w]).key == kv;
                        }
                    }
                    lemma_first_needing(bindings@, kv, b as int);
                }
                start.push(ListenerStart { key: kv, route_id: m.route_id.clone() });
                assert(start@[start0.len() as int].key == kv);
            }
            let ghost start1 = start@;
            assert(forall|j: int| 0 <= j < start0.len() ==> start1[j] == start0[j]);
            assert(!running@.contains(kv) ==> exists|j: int|
                0 <= j < start1.len() && (#[trigger] start1[j]).key == kv);
            match m.data_port {
                Some(p) => {
                    let kd = ListenerKey::Data(p);
                    proof {
                        assert(needs_listener(bindings@[b as int], kd));
                        assert(want.contains(kd));
                    }
                    if !contains_key(running, kd) && !started(&start, kd) {
                        proof {
                            assert forall|mm: int| 0 <= mm < b implies !needs_listener(#[trigger] bindings@[mm], kd) by {
                                if needs_listener(bindings@[mm], kd) {
                                    let w = choose|w: int| 0 <= w < start0.len() && (#[trigger] start0[w]).key == kd;
                                    assert(start@[w] == start0[w]);
                                }
                            }
                            lemma_first_needing(bindings@, kd, b as int);
                        }
                        start.push(ListenerStart { key: kd, route_id: m.route_id.clone() });
                        assert(start@[start1.len() as int].key == kd);
                    }
                    assert(!running@.contains(kd) ==> exists|j: int|
                        0 <= j < start@.len() && (#[trigger] start@[j]).key == kd);
                },
                None => {},
            }
            assert(forall|j: int| 0 <= j < start1.len() ==> start@[j] == start1[j]);
            proof {
                if !running@.contains(kv) {
                    let w = choose|w: int| 0 <= w < start1.len() && (#[trigger] start1[w]).key == kv;
                    assert(start@[w] == start1[w]);
                }
            }
        }
        assert(forall|j: int| 0 <= j < start0.len() ==> start@[j] == start0[j]);
        proof {
            assert forall|k: ListenerKey, mm: int|
                0 <= mm < b + 1 && #[trigger] needs_listener(bindings@[mm], k) && !running@.contains(k)
                implies exists|j: int| 0 <= j < start@.len() && (#[trigger] start@[j]).key == k by {
                if mm < b {
                    let w = choose|w: int| 0 <= w < start0.len() && (#[trigger] start0[w]).key == k;
                    assert(start@[w] == start0[w]);
                }
            }
        }
        b = b + 1;
    }
    proof {
        assert forall|k: ListenerKey| want.contains(k) && !running@.contains(k) implies exists|j: int|
            0 <= j < start@.len() && (#[trigger] start@[j]).key == k by {
            let m = choose|i: int|
                0 <= i < bindings@.len() && bindings@[i].enabled && (k == ListenerKey::Visitor(
                    (#[trigger] bindings@[i]).visitor_port,
                ) || (bindings@[i].data_port is Some && k == ListenerKey::Data(
                    bindings@[i].data_port->0,
                )));
            assert(needs_listener(bindings@[m], k));
        }
        assert forall|k: ListenerKey| running@.contains(k) && !want.contains(k) implies stop@.contains(k) by {
            let j = choose|j: int| 0 <= j < running@.len() && running@[j] == k;
        }
    }
    (stop, start)
}

fn contains_key(keys: &Vec<ListenerKey>, k: ListenerKey) -> (r: bool)
    ensures
        r == keys@.contains(k),
{
    let mut i: usize = 0;
    while i < keys.len()
        invariant
            i <= keys.len(),
            forall|j: int| 0 <= j < i ==> keys@[j] != k,
        decreases keys.len() - i,
    {
        if keys[i] == k {
            return true;
        }
        i = i + 1;
    }
    false
}

fn started(start: &Vec<ListenerStart>, k: ListenerKey) -> (r: bool)
    ensures
        r == exists|j: int| 0 <= j < start@.len() && (#[trigger] start@[j]).key == k,
{
    let mut i: usize = 0;
    while i < start.len()
        invariant
            i <= start.len(),
            forall|j: int| 0 <= j < i ==> (#[trigger] start@[j]).key != k,
        decreases start.len() - i,
    {
        if start[i].key == k {
            return true;
        }
        i = i + 1;
    }
    false
}

fn is_desired(bindings: &Vec<PortBinding>, k: ListenerKey) -> (r: bool)
    ensures
        r == desired_keys(bindings@).contains(k),
{
    let mut i: usize = 0;
    while i < bindings.len()
        invariant
            i <= bindings.len(),
            forall|j: int| 0 <= j < i ==> !needs_listener(#[trigger] bindings@[j], k),
        decreases bindings.len() - i,
    {
        let m = &bindings[i];
        if m.enabled {
            if k == ListenerKey::Visitor(m.visitor_port) {
                assert(needs_listener(bindings@[i as int], k));
                return true;
            }
            match m.data_port {
                Some(p) => {
                    if k == ListenerKey::Data(p) {
                        assert(needs_listener(bindings@[i as int], k));
                        return true;
                    }
                },
                None => {},
            }
        }
        i = i + 1;
    }
    proof {
        if desired_keys(bindings@).contains(k) {
            let m = choose|i: int|
                0 <= i < bindings@.len() && bindings@[i].enabled && (k == ListenerKey::Visitor(
                    (#[trigger] bindings@[i]).visitor_port,
                ) || (bindings@[i].data_port is Some && k == ListenerKey::Data(
                    bindings@[i].data_port->0,
                )));
            assert(needs_listener(bindings@[m], k));
        }
    }
    false
}

/// After the plan, exactly the listeners that the mappings need run: the
/// ones still running plus the ones started are the needed ones.
pub proof fn listener_plan_matches_mappings(
    bindings: Seq<PortBinding>,
    running: Seq<ListenerKey>,
    stop: Seq<ListenerKey>,
    start_keys: Seq<ListenerKey>,
)
    requires
        forall|j: int| 0 <= j < stop.len() ==> !desired_keys(bindings).contains(#[trigger] stop[j]),
        forall|k: ListenerKey| running.contains(k) && !desired_keys(bindings).contains(k) ==> stop.contains(k),
        forall|j: int| 0 <= j < start_keys.len() ==> desired_keys(bindings).contains(#[trigger] start_keys[j]),
        forall|k: ListenerKey|
            desired_keys(bindings).contains(k) && !running.contains(k) ==> start_keys.contains(k),
    ensures
        running.to_set().difference(stop.to_set()).union(start_keys.to_set()) == desired_keys(bindings),
{
    let lhs = running.to_set().difference(stop.to_set()).union(start_keys.to_set());
    assert forall|k: ListenerKey| lhs.contains(k) <==> desired_keys(bindings).contains(k) by {
        if running.to_set().contains(k) && !stop.to_set().contains(k) {
            assert(running.contains(k));
        }
        if start_keys.to_set().contains(k) {
            let j = choose|j: int| 0 <= j < start_keys.len() && start_keys[j] == k;
        }
        if stop.to_set().contains(k) {
            let j = choose|j: int| 0 <= j < stop.len() && stop[j] == k;
        }
    }
    assert(lhs =~= desired_keys(bindings));
}

} // verus!
