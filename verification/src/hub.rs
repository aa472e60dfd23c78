//! The admin hub's state: the peers (servers and edges) that dialed in, the
//! peer paths waiting for both of their relay legs, and the decisions taken
//! on them: who may join, the roster, opening a peer path, forwarding a
//! management request, planning data ports and pairing relay legs.

use vstd::prelude::*;
use dashmap::DashMap;
use crate::codec::{base64_standard_encoding, is_uuid_text, new_uuid_text, request_body_b64};
use crate::common::{HubPeerInfo, PathKind, PeerPathPurpose, PeerRole};
use crate::port_plan::{plan_ports, port_plan, PortBinding};
use crate::text::{decimal, str_eq};

verus! {

#[verifier::external_type_specification]
#[verifier::external_body]
#[verifier::reject_recursive_types(K)]
#[verifier::reject_recursive_types(V)]
#[verifier::reject_recursive_types(S)]
pub struct ExDashMap<K, V, S>(DashMap<K, V, S>);

// ---------------------------------------------------------------------------
// Records
// ---------------------------------------------------------------------------

/// What the hub knows of a connected peer.
pub struct PeerRecord {
    pub node_id: String,
    pub role: PeerRole,
    pub name: Option<String>,
    pub version: Option<String>,
    /// Host that edges should dial on this server (no port).
    pub advertise_host: Option<String>,
}

pub struct PeerView {
    pub node_id: Seq<char>,
    pub role: PeerRole,
    pub name: Option<Seq<char>>,
    pub version: Option<Seq<char>>,
    pub advertise_host: Option<Seq<char>>,
}

pub open spec fn opt_view(o: Option<String>) -> Option<Seq<char>> {
    match o {
        Some(s) => Some(s@),
        None => None,
    }
}

impl View for PeerRecord {
    type V = PeerView;

    open spec fn view(&self) -> PeerView {
        PeerView {
            node_id: self.node_id@,
            role: self.role,
            name: opt_view(self.name),
            version: opt_view(self.version),
            advertise_host: opt_view(self.advertise_host),
        }
    }
}

impl Clone for PeerRecord {
    fn clone(&self) -> (r: Self)
        ensures
            r@ == self@,
    {
        PeerRecord {
            node_id: self.node_id.clone(),
            role: self.role,
            name: self.name.clone(),
            version: self.version.clone(),
            advertise_host: self.advertise_host.clone(),
        }
    }
}

/// A peer path between two peers whose relay legs have not both arrived.
pub struct PendingPath {
    pub connection_id: String,
    pub data_token: String,
    pub a_id: String,
    pub b_id: String,
    pub purpose: PeerPathPurpose,
    pub path: PathKind,
    /// Monotonic time of creation, in milliseconds.
    pub created_at_ms: u64,
    /// One relay leg has arrived and waits for the other.
    pub waiting: bool,
}

pub struct PendingView {
    pub connection_id: Seq<char>,
    pub data_token: Seq<char>,
    pub a_id: Seq<char>,
    pub b_id: Seq<char>,
    pub purpose: PeerPathPurpose,
    pub path: PathKind,
    pub created_at_ms: u64,
    pub waiting: bool,
}

impl View for PendingPath {
    type V = PendingView;

    open spec fn view(&self) -> PendingView {
        PendingView {
            connection_id: self.connection_id@,
            data_token: self.data_token@,
            a_id: self.a_id@,
            b_id: self.b_id@,
            purpose: self.purpose,
            path: self.path,
            created_at_ms: self.created_at_ms,
            waiting: self.waiting,
        }
    }
}

impl Clone for PendingPath {
    fn clone(&self) -> (r: Self)
        ensures
            r@ == self@,
    {
        PendingPath {
            connection_id: self.connection_id.clone(),
            data_token: self.data_token.clone(),
            a_id: self.a_id.clone(),
            b_id: self.b_id.clone(),
            purpose: self.purpose,
            path: self.path,
            created_at_ms: self.created_at_ms,
            waiting: self.waiting,
        }
    }
}

// ---------------------------------------------------------------------------
// The concurrent maps behind the state
// ---------------------------------------------------------------------------

/// What a peer map holds, by node id.
pub uninterp spec fn peer_table(m: DashMap<String, PeerRecord>) -> Map<Seq<char>, PeerView>;

/// What a pending-path map holds, by connection id.
pub uninterp spec fn pending_table(m: DashMap<String, PendingPath>) -> Map<
    Seq<char>,
    PendingView,
>;

/// Calls `DashMap::new`: an empty map.
#[verifier::external_body]
fn peers_new() -> (r: DashMap<String, PeerRecord>)
    ensures
        peer_table(r).dom() == Set::<Seq<char>>::empty(),
{
    DashMap::new()
}

/// Calls `DashMap::get` and copies the record found under `id`.
#[verifier::external_body]
fn peers_get(m: &DashMap<String, PeerRecord>, id: &str) -> (r: Option<PeerRecord>)
    ensures
        match r {
            Some(p) => peer_table(*m).contains_key(id@) && p@ == peer_table(*m)[id@],
            None => !peer_table(*m).contains_key(id@),
        },
{
    m.get(id).map(|e| e.value().clone())
}

/// Calls `DashMap::insert`: `id` now maps to `p`, replacing what was there.
#[verifier::external_body]
fn peers_insert(m: &mut DashMap<String, PeerRecord>, id: String, p: PeerRecord)
    ensures
        peer_table(*final(m)) == peer_table(*old(m)).insert(id@, p@),
{
    m.insert(id, p);
}

/// Calls `DashMap::remove`: `id` maps to nothing afterwards.
#[verifier::external_body]
fn peers_remove(m: &mut DashMap<String, PeerRecord>, id: &str)
    ensures
        peer_table(*final(m)) == peer_table(*old(m)).remove(id@),
{
    m.remove(id);
}

/// Walks the map with `DashMap::iter` and copies every entry. Each entry
/// comes out once; the order depends on the map's hasher and is left
/// unsaid.
#[verifier::external_body]
fn peers_entries(m: &DashMap<String, PeerRecord>) -> (r: Vec<(String, PeerRecord)>)
    ensures
        r@.len() == peer_table(*m).dom().len(),
        forall|i: int|
            0 <= i < r@.len() ==> peer_table(*m).contains_key((#[trigger] r@[i]).0@) && r@[i].1@
                == peer_table(*m)[r@[i].0@],
        forall|i: int, j: int| 0 <= i < j < r@.len() ==> (#[trigger] r@[i]).0@ != (#[trigger] r@[j]).0@,
        forall|k: Seq<char>|
            #[trigger] peer_table(*m).contains_key(k) ==> exists|i: int|
                0 <= i < r@.len() && (#[trigger] r@[i]).0@ == k,
{
    m.iter().map(|e| (e.key().clone(), e.value().clone())).collect()
}

/// Calls `DashMap::new`: an empty map.
#[verifier::external_body]
fn pending_new() -> (r: DashMap<String, PendingPath>)
    ensures
        pending_table(r).dom() == Set::<Seq<char>>::empty(),
{
    DashMap::new()
}

/// Calls `DashMap::get` and copies the path found under `id`.
#[verifier::external_body]
fn pending_get(m: &DashMap<String, PendingPath>, id: &str) -> (r: Option<PendingPath>)
    ensures
        match r {
            Some(p) => pending_table(*m).contains_key(id@) && p@ == pending_table(*m)[id@],
            None => !pending_table(*m).contains_key(id@),
        },
{
    m.get(id).map(|e| e.value().clone())
}

/// Calls `DashMap::insert`: `id` now maps to `p`.
#[verifier::external_body]
fn pending_insert(m: &mut DashMap<String, PendingPath>, id: String, p: PendingPath)
    ensures
        pending_table(*final(m)) == pending_table(*old(m)).insert(id@, p@),
{
    m.insert(id, p);
}

/// Calls `DashMap::remove`: `id` maps to nothing afterwards.
#[verifier::external_body]
fn pending_remove(m: &mut DashMap<String, PendingPath>, id: &str)
    ensures
        pending_table(*final(m)) == pending_table(*old(m)).remove(id@),
{
    m.remove(id);
}

/// Which forwarded management calls still wait for their reply, by request
/// id.
pub uninterp spec fn waiter_table(m: DashMap<String, ()>) -> Set<Seq<char>>;

/// Calls `DashMap::new`: no call waits.
#[verifier::external_body]
fn waiters_new() -> (r: DashMap<String, ()>)
    ensures
        waiter_table(r) == Set::<Seq<char>>::empty(),
{
    DashMap::new()
}

/// Calls `DashMap::insert`: `id` waits afterwards.
#[verifier::external_body]
fn waiters_insert(m: &mut DashMap<String, ()>, id: String)
    ensures
        waiter_table(*final(m)) == waiter_table(*old(m)).insert(id@),
{
    m.insert(id, ());
}

/// Calls `DashMap::remove`: `id` waits no more afterwards; the removed
/// entry comes back when `id` was waiting.
#[verifier::external_body]
fn waiters_remove(m: &mut DashMap<String, ()>, id: &str) -> (r: Option<(String, ())>)
    ensures
        waiter_table(*final(m)) == waiter_table(*old(m)).remove(id@),
        r is Some <==> waiter_table(*old(m)).contains(id@),
{
    m.remove(id)
}

/// Calls `DashMap::retain`, keeping the paths younger than `max_age_ms` at
/// time `now_ms` (the test is `is_fresh`).
#[verifier::external_body]
fn pending_retain_fresh(m: &mut DashMap<String, PendingPath>, now_ms: u64, max_age_ms: u64)
    ensures
        pending_table(*final(m)) == pending_table(*old(m)).restrict(
            pending_table(*old(m)).dom().filter(
                |k: Seq<char>| fresh(pending_table(*old(m))[k], now_ms, max_age_ms),
            ),
        ),
{
    m.retain(|_, p| is_fresh(p, now_ms, max_age_ms));
}

/// The path is younger than `max_age_ms` at time `now_ms`.
pub open spec fn fresh(p: PendingView, now_ms: u64, max_age_ms: u64) -> bool {
    if now_ms >= p.created_at_ms {
        now_ms - p.created_at_ms < max_age_ms
    } else {
        0 < max_age_ms
    }
}

/// Whether `p` is younger than `max_age_ms` at time `now_ms` (a clock that
/// went back counts as no time passed).
pub fn is_fresh(p: &PendingPath, now_ms: u64, max_age_ms: u64) -> (r: bool)
    ensures
        r == fresh(p@, now_ms, max_age_ms),
{
    let age = if now_ms >= p.created_at_ms {
        now_ms - p.created_at_ms
    } else {
        0
    };
    age < max_age_ms
}

// ---------------------------------------------------------------------------
// Messages the hub sends
// ---------------------------------------------------------------------------

/// The offer of a peer path, sent to each of its two peers.
pub struct PeerPathOffer {
    pub request_id: String,
    pub connection_id: String,
    pub data_token: String,
    /// The other end of the path.
    pub peer_node_id: String,
    pub path: PathKind,
    pub purpose: PeerPathPurpose,
    pub local_addr: Option<String>,
    /// `host:port` the edge may dial directly before falling back to the
    /// hub's relay port.
    pub data_endpoint: Option<String>,
}

/// A management HTTP request forwarded to a server over its hub session.
pub struct MgmtForward {
    pub request_id: String,
    pub method: String,
    pub path: String,
    pub headers: Vec<(String, String)>,
    pub body_b64: Option<String>,
}

/// Why the hub refused a request.
#[derive(Debug)]
pub enum HubError {
    /// The peer asking for a path is not connected.
    SourceOffline,
    /// The peer asked for is not connected.
    TargetOffline,
    /// The server is not connected to the hub.
    ServerNotConnected(String),
}

impl HubError {
    /// The error text sent back.
    pub fn message(&self) -> (r: String)
        ensures
            match self {
                HubError::SourceOffline => r@ == "source peer offline"@,
                HubError::TargetOffline => r@ == "target peer offline"@,
                HubError::ServerNotConnected(id) => r@ == "server not connected to hub: "@ + id@,
            },
    {
        match self {
            HubError::SourceOffline => "source peer offline".to_owned(),
            HubError::TargetOffline => "target peer offline".to_owned(),
            HubError::ServerNotConnected(id) => {
                let mut m = "server not connected to hub: ".to_owned();
                m.append(id.as_str());
                m
            },
        }
    }
}

/// Why a peer was not let in.
#[derive(Debug, PartialEq, Eq, Structural, Clone, Copy)]
pub enum HubAuthError {
    /// The token is not the hub token (or the hub has none).
    AuthFailed,
    /// The peer asked for a role the hub does not accept.
    InvalidRole,
}

/// What to do with a relay leg that just presented its handshake.
#[derive(Debug, PartialEq, Eq, Structural, Clone, Copy)]
pub enum DataArrival {
    /// No pending path has this connection id.
    Unknown,
    /// The data token does not match.
    BadToken,
    /// First leg: park it until the other leg arrives.
    Park,
    /// Second leg: bridge it with the parked one; the path is done.
    Bridge,
}

// ---------------------------------------------------------------------------
// The hub state
// ---------------------------------------------------------------------------

/// The admin hub's state.
pub struct HubState {
    token: String,
    peers: DashMap<String, PeerRecord>,
    pending_paths: DashMap<String, PendingPath>,
    /// The forwarded management calls waiting for their reply.
    mgmt_waiters: DashMap<String, ()>,
    /// First data port handed out when a mapping has none.
    port_base: u16,
}

impl HubState {
    /// The connected peers, by node id.
    pub closed spec fn peers_view(&self) -> Map<Seq<char>, PeerView> {
        peer_table(self.peers)
    }

    /// The peer paths waiting for their relay legs, by connection id.
    pub closed spec fn pending_view(&self) -> Map<Seq<char>, PendingView> {
        pending_table(self.pending_paths)
    }

    /// The request ids of the forwarded management calls still waiting for
    /// their reply.
    pub closed spec fn waiters_view(&self) -> Set<Seq<char>> {
        waiter_table(self.mgmt_waiters)
    }

    pub closed spec fn token_view(&self) -> Seq<char> {
        self.token@
    }

    pub closed spec fn port_base_view(&self) -> u16 {
        self.port_base
    }

    /// Every record is filed under its own id, and there are finitely many.
    pub open spec fn wf(&self) -> bool {
        &&& self.peers_view().dom().finite()
        &&& forall|k: Seq<char>|
            #[trigger] self.peers_view().contains_key(k) ==> self.peers_view()[k].node_id == k
        &&& forall|k: Seq<char>|
            #[trigger] self.pending_view().contains_key(k) ==> self.pending_view()[k].connection_id
                == k
    }

    pub fn new(hub_token: String, port_base: u16) -> (r: Self)
        ensures
            r.wf(),
            r.token_view() == hub_token@,
            r.port_base_view() == port_base,
            r.peers_view().dom() == Set::<Seq<char>>::empty(),
            r.pending_view().dom() == Set::<Seq<char>>::empty(),
            r.waiters_view() == Set::<Seq<char>>::empty(),
    {
        HubState {
            token: hub_token,
            peers: peers_new(),
            pending_paths: pending_new(),
            mgmt_waiters: waiters_new(),
            port_base,
        }
    }

    pub fn port_base(&self) -> (r: u16)
        ensures
            r == self.port_base_view(),
    {
        self.port_base
    }

    /// A peer's token is accepted when the hub has a token and it is exactly
    /// that token.
    pub fn verify_token(&self, token: &str) -> (r: bool)
        ensures
            r == (self.token_view().len() > 0 && token@ == self.token_view()),
    {
        self.token.as_str().unicode_len() > 0 && str_eq(token, self.token.as_str())
    }

    /// Lets a peer in: its token must be the hub token; it is an edge unless
    /// it says otherwise, and only edges and servers are accepted.
    pub fn authorize(&self, token: &str, role: Option<PeerRole>) -> (r: Result<PeerRole, HubAuthError>)
        ensures
            !(self.token_view().len() > 0 && token@ == self.token_view()) ==> r matches Err(
                HubAuthError::AuthFailed,
            ),
            (self.token_view().len() > 0 && token@ == self.token_view()) ==> r == match role {
                None => Ok(PeerRole::Edge),
                Some(PeerRole::Edge) => Ok(PeerRole::Edge),
                Some(PeerRole::Server) => Ok(PeerRole::Server),
                Some(PeerRole::Admin) => Err(HubAuthError::InvalidRole),
            },
    {
        if !self.verify_token(token) {
            return Err(HubAuthError::AuthFailed);
        }
        match role {
            None => Ok(PeerRole::Edge),
            Some(PeerRole::Edge) => Ok(PeerRole::Edge),
            Some(PeerRole::Server) => Ok(PeerRole::Server),
            Some(PeerRole::Admin) => Err(HubAuthError::InvalidRole),
        }
    }

    /// Records a peer that has just authenticated (replacing an older session
    /// of the same id).
    pub fn add_peer(&mut self, node_id: String, role: PeerRole)
        requires
            old(self).wf(),
        ensures
            final(self).wf(),
            final(self).peers_view() == joined(old(self).peers_view(), node_id@, role),
            final(self).pending_view() == old(self).pending_view(),
            final(self).token_view() == old(self).token_view(),
            final(self).port_base_view() == old(self).port_base_view(),
            final(self).waiters_view() == old(self).waiters_view(),
    {
        let rec = PeerRecord {
            node_id: node_id.clone(),
            role,
            name: None,
            version: None,
            advertise_host: None,
        };
        peers_insert(&mut self.peers, node_id, rec);
    }

    /// Takes in a peer's registration: a given host name and version
    /// replace the recorded ones.
    pub fn on_register(&mut self, node_id: &str, hostname: Option<String>, version: Option<String>)
        requires
            old(self).wf(),
        ensures
            final(self).wf(),
            final(self).peers_view() == registered(
                old(self).peers_view(),
                node_id@,
                opt_view(hostname),
                opt_view(version),
            ),
            final(self).pending_view() == old(self).pending_view(),
            final(self).token_view() == old(self).token_view(),
            final(self).port_base_view() == old(self).port_base_view(),
            final(self).waiters_view() == old(self).waiters_view(),
    {
        match peers_get(&self.peers, node_id) {
            Some(mut p) => {
                if hostname.is_some() {
                    p.name = hostname;
                }
                if version.is_some() {
                    p.version = version;
                }
                let key = p.node_id.clone();
                proof {
                    assert(key@ == node_id@);
                }
                peers_insert(&mut self.peers, key, p);
            },
            None => {},
        }
    }

    /// Forgets a peer whose session ended.
    pub fn remove_peer(&mut self, node_id: &str)
        requires
            old(self).wf(),
        ensures
            final(self).wf(),
            final(self).peers_view() == old(self).peers_view().remove(node_id@),
            final(self).pending_view() == old(self).pending_view(),
            final(self).token_view() == old(self).token_view(),
            final(self).port_base_view() == old(self).port_base_view(),
            final(self).waiters_view() == old(self).waiters_view(),
    {
        peers_remove(&mut self.peers, node_id);
    }

    /// The roster broadcast to the peers: every connected peer, online.
    pub fn roster(&self) -> (r: Vec<HubPeerInfo>)
        requires
            self.wf(),
        ensures
            r@.len() == self.peers_view().dom().len(),
            forall|i: int|
                0 <= i < r@.len() ==> (#[trigger] r@[i]).online && self.peers_view().contains_key(
                    r@[i].node_id@,
                ) && roster_entry_of(r@[i], self.peers_view()[r@[i].node_id@]),
            forall|k: Seq<char>|
                self.peers_view().contains_key(k) ==> exists|i: int|
                    0 <= i < r@.len() && #[trigger] r@[i].node_id@ == k,
    {
        let entries = peers_entries(&self.peers);
        let mut out: Vec<HubPeerInfo> = Vec::new();
        let mut i: usize = 0;
        while i < entries.len()
            invariant
                i <= entries.len(),
                out@.len() == i,
                self.wf(),
                forall|j: int|
                    0 <= j < i ==> (#[trigger] out@[j]).online && self.peers_view().contains_key(
                        out@[j].node_id@,
                    ) && roster_entry_of(out@[j], self.peers_view()[out@[j].node_id@])
                        && out@[j].node_id@ == entries@[j].0@,
                forall|j: int|
                    0 <= j < entries@.len() ==> peer_table(self.peers).contains_key(
                        (#[trigger] entries@[j]).0@,
                    ) && entries@[j].1@ == peer_table(self.peers)[entries@[j].0@],
            decreases entries.len() - i,
        {
            let p = &entries[i].1;
            proof {
                let k = entries@[i as int].0@;
                assert(self.peers_view()[k].node_id == k);
            }
            out.push(
                HubPeerInfo {
                    node_id: p.node_id.clone(),
                    role: p.role,
                    name: p.name.clone(),
                    version: p.version.clone(),
                    online: true,
                },
            );
            i = i + 1;
        }
        proof {
            assert forall|k: Seq<char>| self.peers_view().contains_key(k) implies exists|i: int|
                0 <= i < out@.len() && #[trigger] out@[i].node_id@ == k by {
                assert(peer_table(self.peers).contains_key(k));
                let j = choose|j: int| 0 <= j < entries@.len() && (#[trigger] entries@[j]).0@ == k;
                assert(out@[j].node_id@ == k);
            }
        }
        out
    }

    /// Whether `id` is connected as a server.
    pub fn is_server_online(&self, id: &str) -> (r: bool)
        ensures
            r == (self.peers_view().contains_key(id@) && self.peers_view()[id@].role
                == PeerRole::Server),
    {
        match peers_get(&self.peers, id) {
            Some(p) => p.role == PeerRole::Server,
            None => false,
        }
    }

    /// Opens a relay path between `from_id` and `target_id`: records it as
    /// pending under a fresh connection id and gives the offers for the two
    /// peers. For a data path, the source's advertised host (else the
    /// target's) with `data_port` tells the edge where it may dial directly.
    /// Refused when either peer is not connected.
    pub fn open_peer_path(
        &mut self,
        from_id: &str,
        target_id: &str,
        request_id: &str,
        purpose: PeerPathPurpose,
        prefer_p2p: bool,
        local_addr: Option<String>,
        data_port: Option<u16>,
        data_token: String,
        now_ms: u64,
    ) -> (r: Result<(PeerPathOffer, PeerPathOffer), HubError>)
        requires
            old(self).wf(),
        ensures
            final(self).wf(),
            final(self).peers_view() == old(self).peers_view(),
            final(self).token_view() == old(self).token_view(),
            final(self).port_base_view() == old(self).port_base_view(),
            final(self).waiters_view() == old(self).waiters_view(),
            !old(self).peers_view().contains_key(from_id@) ==> (r matches Err(
                HubError::SourceOffline,
            ) && final(self).pending_view() == old(self).pending_view()),
            old(self).peers_view().contains_key(from_id@) && !old(self).peers_view().contains_key(target_id@)
                ==> (r matches Err(HubError::TargetOffline) && final(self).pending_view() == old(self).pending_view()),
            old(self).peers_view().contains_key(from_id@) && old(self).peers_view().contains_key(target_id@)
                ==> (r matches Ok((a, b)) && offers_for(
                a,
                b,
                old(self).peers_view(),
                from_id@,
                target_id@,
                request_id@,
                purpose,
                opt_view(local_addr),
                data_port,
                data_token@,
            ) && final(self).pending_view() == old(self).pending_view().insert(
                a.connection_id@,
                PendingView {
                    connection_id: a.connection_id@,
                    data_token: data_token@,
                    a_id: from_id@,
                    b_id: target_id@,
                    purpose,
                    path: PathKind::Relay,
                    created_at_ms: now_ms,
                    waiting: false,
                },
            )),
    {
        let from = peers_get(&self.peers, from_id);
        if from.is_none() {
            return Err(HubError::SourceOffline);
        }
        let target = peers_get(&self.peers, target_id);
        if target.is_none() {
            return Err(HubError::TargetOffline);
        }
        // Hole punching is not wired: every path goes through the relay.
        let _ = prefer_p2p;
        let path = PathKind::Relay;
        let advertise_host = match from.unwrap().advertise_host {
            Some(h) => Some(h),
            None => target.unwrap().advertise_host,
        };
        let data_endpoint = match (purpose, advertise_host, data_port) {
            (PeerPathPurpose::Data, Some(host), Some(port)) => Some(
                crate::admin_config::host_port(host.as_str(), port),
            ),
            _ => None,
        };
        let connection_id = new_uuid_text();
        let pending = PendingPath {
            connection_id: connection_id.clone(),
            data_token: data_token.clone(),
            a_id: from_id.to_owned(),
            b_id: target_id.to_owned(),
            purpose,
            path,
            created_at_ms: now_ms,
            waiting: false,
        };
        pending_insert(&mut self.pending_paths, connection_id.clone(), pending);
        let offer_a = PeerPathOffer {
            request_id: request_id.to_owned(),
            connection_id: connection_id.clone(),
            data_token: data_token.clone(),
            peer_node_id: target_id.to_owned(),
            path,
            purpose,
            local_addr: local_addr.clone(),
            data_endpoint: data_endpoint.clone(),
        };
        let offer_b = PeerPathOffer {
            request_id: request_id.to_owned(),
            connection_id,
            data_token,
            peer_node_id: from_id.to_owned(),
            path,
            purpose,
            local_addr,
            data_endpoint,
        };
        Ok((offer_a, offer_b))
    }

    /// Gives every enabled mapping without a data port the smallest free
    /// port at or above the hub's port base, as long as free ports remain
    /// (see `port_plan`); the result is the listen plan pushed to the server.
    pub fn issue_ports(&self, mappings: Vec<PortBinding>) -> (r: Vec<PortBinding>)
        ensures
            port_plan(self.port_base_view(), mappings@, r@),
    {
        plan_ports(self.port_base, mappings)
    }

    /// The request that forwards a management call to a connected server,
    /// under a fresh request id, with the body in base64; the call then waits
    /// for its reply under that id. Refused, with nothing waiting, when the
    /// server is not connected.
    pub fn mgmt_forward(
        &mut self,
        server_id: &str,
        method: &str,
        path: &str,
        headers: Vec<(String, String)>,
        body: Option<Vec<u8>>,
    ) -> (r: Result<MgmtForward, HubError>)
        requires
            body matches Some(b) ==> b@.len() <= usize::MAX / 2,
        ensures
            !(old(self).peers_view().contains_key(server_id@) && old(self).peers_view()[server_id@].role
                == PeerRole::Server) ==> (r matches Err(HubError::ServerNotConnected(id)) && id@
                == server_id@),
            (old(self).peers_view().contains_key(server_id@) && old(self).peers_view()[server_id@].role
                == PeerRole::Server) ==> (r matches Ok(m) && is_uuid_text(m.request_id@)
                && m.method@ == method@ && m.path@ == path@ && m.headers@ == headers@
                && match body {
                Some(b) => m.body_b64 is Some && m.body_b64->0@ == base64_standard_encoding(b@),
                None => m.body_b64 is None,
            }),
            final(self).waiters_view() == after_forward(old(self).waiters_view(), r),
            final(self).peers_view() == old(self).peers_view(),
            final(self).pending_view() == old(self).pending_view(),
            final(self).token_view() == old(self).token_view(),
            final(self).port_base_view() == old(self).port_base_view(),
    {
        if !self.is_server_online(server_id) {
            return Err(HubError::ServerNotConnected(server_id.to_owned()));
        }
        let request_id = new_uuid_text();
        let body_b64 = request_body_b64(body);
        waiters_insert(&mut self.mgmt_waiters, request_id.clone());
        Ok(
            MgmtForward {
                request_id,
                method: method.to_owned(),
                path: path.to_owned(),
                headers,
                body_b64,
            },
        )
    }

    /// A reply to forwarded call `request_id` came in: true when the call
    /// was waiting for it, which it then no longer does. A reply that no
    /// call waits for is dropped.
    pub fn complete_mgmt(&mut self, request_id: &str) -> (r: bool)
        ensures
            r == reply_completes(old(self).waiters_view(), request_id@),
            final(self).waiters_view() == call_done(old(self).waiters_view(), request_id@),
            final(self).peers_view() == old(self).peers_view(),
            final(self).pending_view() == old(self).pending_view(),
            final(self).token_view() == old(self).token_view(),
            final(self).port_base_view() == old(self).port_base_view(),
    {
        let removed = waiters_remove(&mut self.mgmt_waiters, request_id);
        removed.is_some()
    }

    /// Forwarded call `request_id` gave up waiting: its request could not be
    /// sent, no reply came in time, or the wait was cancelled.
    pub fn abandon_mgmt(&mut self, request_id: &str)
        ensures
            final(self).waiters_view() == call_done(old(self).waiters_view(), request_id@),
            final(self).peers_view() == old(self).peers_view(),
            final(self).pending_view() == old(self).pending_view(),
            final(self).token_view() == old(self).token_view(),
            final(self).port_base_view() == old(self).port_base_view(),
    {
        let _ = waiters_remove(&mut self.mgmt_waiters, request_id);
    }

    /// Drops the pending paths that are `max_age_ms` old or older at
    /// `now_ms`.
    pub fn cleanup_stale_pending(&mut self, now_ms: u64, max_age_ms: u64)
        requires
            old(self).wf(),
        ensures
            final(self).wf(),
            final(self).peers_view() == old(self).peers_view(),
            final(self).token_view() == old(self).token_view(),
            final(self).port_base_view() == old(self).port_base_view(),
            final(self).waiters_view() == old(self).waiters_view(),
            forall|k: Seq<char>|
                final(self).pending_view().contains_key(k) <==> old(self).pending_view().contains_key(k)
                    && fresh(old(self).pending_view()[k], now_ms, max_age_ms),
            forall|k: Seq<char>|
                #[trigger] final(self).pending_view().contains_key(k) ==> final(self).pending_view()[k]
                    == old(self).pending_view()[k],
    {
        pending_retain_fresh(&mut self.pending_paths, now_ms, max_age_ms);
    }

    /// A relay leg presented connection id `cid` and token `token`: unknown
    /// ids and wrong tokens are refused; the first leg of a path is parked,
    /// the second is bridged with it and the path is done.
    pub fn on_data_arrival(&mut self, cid: &str, token: &str) -> (r: DataArrival)
        requires
            old(self).wf(),
        ensures
            final(self).wf(),
            final(self).peers_view() == old(self).peers_view(),
            final(self).token_view() == old(self).token_view(),
            final(self).port_base_view() == old(self).port_base_view(),
            final(self).waiters_view() == old(self).waiters_view(),
            r == arrival_outcome(old(self).pending_view(), cid@, token@),
            final(self).pending_view() == pending_after_arrival(old(self).pending_view(), cid@, token@),
    {
        match pending_get(&self.pending_paths, cid) {
            None => DataArrival::Unknown,
            Some(mut p) => {
                if !str_eq(p.data_token.as_str(), token) {
                    DataArrival::BadToken
                } else if !p.waiting {
                    p.waiting = true;
                    let key = p.connection_id.clone();
                    pending_store(&mut self.pending_paths, key, p, cid);
                    DataArrival::Park
                } else {
                    pending_remove(&mut self.pending_paths, cid);
                    DataArrival::Bridge
                }
            },
        }
    }
}

fn pending_store(m: &mut DashMap<String, PendingPath>, key: String, p: PendingPath, cid: &str)
    requires
        key@ == cid@,
    ensures
        pending_table(*final(m)) == pending_table(*old(m)).insert(cid@, p@),
{
    pending_insert(m, key, p);
}

/// The roster entry shows the peer's id, role, name and version.
pub open spec fn roster_entry_of(info: HubPeerInfo, p: PeerView) -> bool {
    &&& info.node_id@ == p.node_id
    &&& info.role == p.role
    &&& opt_view(info.name) == p.name
    &&& opt_view(info.version) == p.version
}

/// The data endpoint offered for a path: for data paths, the advertised
/// host of the source (else of the target) with the route's data port.
pub open spec fn offered_endpoint(
    peers: Map<Seq<char>, PeerView>,
    from_id: Seq<char>,
    target_id: Seq<char>,
    purpose: PeerPathPurpose,
    data_port: Option<u16>,
) -> Option<Seq<char>> {
    let host = match peers[from_id].advertise_host {
        Some(h) => Some(h),
        None => peers[target_id].advertise_host,
    };
    match (purpose, host, data_port) {
        (PeerPathPurpose::Data, Some(h), Some(p)) => Some(h + seq![':'] + decimal(p as nat)),
        _ => None,
    }
}

/// `a` and `b` are the offers of one relay path between `from_id` and
/// `target_id`: the same fresh connection id and token, each naming the
/// other end.
pub open spec fn offers_for(
    a: PeerPathOffer,
    b: PeerPathOffer,
    peers: Map<Seq<char>, PeerView>,
    from_id: Seq<char>,
    target_id: Seq<char>,
    request_id: Seq<char>,
    purpose: PeerPathPurpose,
    local_addr: Option<Seq<char>>,
    data_port: Option<u16>,
    data_token: Seq<char>,
) -> bool {
    let endpoint = offered_endpoint(peers, from_id, target_id, purpose, data_port);
    &&& is_uuid_text(a.connection_id@)
    &&& b.connection_id@ == a.connection_id@
    &&& a.request_id@ == request_id && b.request_id@ == request_id
    &&& a.data_token@ == data_token && b.data_token@ == data_token
    &&& a.peer_node_id@ == target_id && b.peer_node_id@ == from_id
    &&& a.path == PathKind::Relay && b.path == PathKind::Relay
    &&& a.purpose == purpose && b.purpose == purpose
    &&& opt_view(a.local_addr) == local_addr && opt_view(b.local_addr) == local_addr
    &&& opt_view(a.data_endpoint) == endpoint && opt_view(b.data_endpoint) == endpoint
}

/// What a relay leg's arrival leads to.
pub open spec fn arrival_outcome(pending: Map<Seq<char>, PendingView>, cid: Seq<char>, token: Seq<char>) -> DataArrival {
    if !pending.contains_key(cid) {
        DataArrival::Unknown
    } else if pending[cid].data_token != token {
        DataArrival::BadToken
    } else if !pending[cid].waiting {
        DataArrival::Park
    } else {
        DataArrival::Bridge
    }
}

/// The pending paths after a relay leg's arrival.
pub open spec fn pending_after_arrival(
    pending: Map<Seq<char>, PendingView>,
    cid: Seq<char>,
    token: Seq<char>,
) -> Map<Seq<char>, PendingView> {
    match arrival_outcome(pending, cid, token) {
        DataArrival::Park => pending.insert(cid, PendingView { waiting: true, ..pending[cid] }),
        DataArrival::Bridge => pending.remove(cid),
        _ => pending,
    }
}

/// A path is bridged by its second leg: after the first leg with the right
/// token is parked, the next leg with the right token bridges the two, and
/// the path is no longer pending, so a third leg is turned away.
pub proof fn two_legs_make_a_bridge(
    pending: Map<Seq<char>, PendingView>,
    cid: Seq<char>,
    token: Seq<char>,
)
    requires
        pending.contains_key(cid),
        pending[cid].data_token == token,
        !pending[cid].waiting,
    ensures
        arrival_outcome(pending, cid, token) == DataArrival::Park,
        arrival_outcome(pending_after_arrival(pending, cid, token), cid, token)
            == DataArrival::Bridge,
        arrival_outcome(
            pending_after_arrival(pending_after_arrival(pending, cid, token), cid, token),
            cid,
            token,
        ) == DataArrival::Unknown,
{
}

/// A leg with the wrong token changes nothing and bridges nothing.
pub proof fn wrong_token_changes_nothing(
    pending: Map<Seq<char>, PendingView>,
    cid: Seq<char>,
    token: Seq<char>,
)
    requires
        pending.contains_key(cid),
        pending[cid].data_token != token,
    ensures
        arrival_outcome(pending, cid, token) == DataArrival::BadToken,
        pending_after_arrival(pending, cid, token) == pending,
{
}

/// The peers after a peer `id` joins with role `role` (see `add_peer`).
pub open spec fn joined(peers: Map<Seq<char>, PeerView>, id: Seq<char>, role: PeerRole) -> Map<
    Seq<char>,
    PeerView,
> {
    peers.insert(id, PeerView { node_id: id, role, name: None, version: None, advertise_host: None })
}

/// The peers after peer `id` registers a host name and version (see
/// `on_register`).
pub open spec fn registered(
    peers: Map<Seq<char>, PeerView>,
    id: Seq<char>,
    name: Option<Seq<char>>,
    version: Option<Seq<char>>,
) -> Map<Seq<char>, PeerView> {
    if peers.contains_key(id) {
        let p = peers[id];
        peers.insert(
            id,
            PeerView {
                name: if name is Some {
                    name
                } else {
                    p.name
                },
                version: if version is Some {
                    version
                } else {
                    p.version
                },
                ..p
            },
        )
    } else {
        peers
    }
}

/// A server that joined is online as a server, also after it registers,
/// and no longer once it has left; other peers are not touched.
pub proof fn joined_server_online_until_it_leaves(
    peers: Map<Seq<char>, PeerView>,
    id: Seq<char>,
    name: Option<Seq<char>>,
    version: Option<Seq<char>>,
    other: Seq<char>,
)
    requires
        other != id,
    ensures
        joined(peers, id, PeerRole::Server).contains_key(id),
        joined(peers, id, PeerRole::Server)[id].role == PeerRole::Server,
        registered(joined(peers, id, PeerRole::Server), id, name, version).contains_key(id),
        registered(joined(peers, id, PeerRole::Server), id, name, version)[id].role
            == PeerRole::Server,
        !registered(joined(peers, id, PeerRole::Server), id, name, version).remove(id).contains_key(
            id,
        ),
        registered(joined(peers, id, PeerRole::Server), id, name, version).remove(id).contains_key(
            other,
        ) == peers.contains_key(other),
{
}

/// The calls waiting after a forward: the new call's id joins them, and a
/// refused forward leaves them as they were.
pub open spec fn after_forward(waiting: Set<Seq<char>>, r: Result<MgmtForward, HubError>) -> Set<
    Seq<char>,
> {
    match r {
        Ok(m) => waiting.insert(m.request_id@),
        Err(_) => waiting,
    }
}

/// Whether a reply to `id` completes a waiting call.
pub open spec fn reply_completes(waiting: Set<Seq<char>>, id: Seq<char>) -> bool {
    waiting.contains(id)
}

/// The calls waiting once call `id` is completed or given up.
pub open spec fn call_done(waiting: Set<Seq<char>>, id: Seq<char>) -> Set<Seq<char>> {
    waiting.remove(id)
}

/// A forwarded call is completed by the first reply to its request id and
/// by no later one; completing it leaves the other waiting calls as they
/// were, and a call that gave up is completed by no reply.
pub proof fn forwarded_call_completes_once(waiting: Set<Seq<char>>, m: MgmtForward)
    ensures
        reply_completes(after_forward(waiting, Ok::<MgmtForward, HubError>(m)), m.request_id@),
        !reply_completes(
            call_done(after_forward(waiting, Ok::<MgmtForward, HubError>(m)), m.request_id@),
            m.request_id@,
        ),
        call_done(after_forward(waiting, Ok::<MgmtForward, HubError>(m)), m.request_id@)
            == call_done(waiting, m.request_id@),
{
    assert(call_done(after_forward(waiting, Ok::<MgmtForward, HubError>(m)), m.request_id@)
        =~= call_done(waiting, m.request_id@));
}

/// A refused forward leaves no call waiting for a reply.
pub proof fn refused_forward_leaves_no_waiter(waiting: Set<Seq<char>>, e: HubError)
    ensures
        after_forward(waiting, Err::<MgmtForward, HubError>(e)) == waiting,
{
}

} // verus!
