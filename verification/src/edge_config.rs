//! Configuration of the edge client (`edge.toml`) and the decisions the edge
//! takes around the admin hub: which hub it dials, with which token, how it
//! joins the management overlay, and which servers it opens management paths
//! to when the hub's roster changes.

use vstd::prelude::*;
use vstd::seq_lib::seq_to_set_distributes_over_add;
use crate::admin_config::host_port;
use crate::common::{
    clone_texts, default_overlay_view, texts_view, HubPeerInfo, OverlayConfig, OverlayRole,
    OverlayView, PeerRole, TransportKind,
};
use crate::text::{decimal, trim, trim_str};

verus! {

/// A service on the edge's network that visitors reach through a tunnel.
pub struct LocalService {
    pub service_id: String,
    pub name: String,
    /// `tcp` unless configured otherwise.
    pub protocol: String,
    /// `host:port` the edge connects to for this service.
    pub local_addr: String,
}

/// The edge client's configuration.
pub struct EdgeConfig {
    pub node_id: String,
    pub token: String,
    pub server: String,
    pub control_port: u16,
    pub data_port: u16,
    pub data_quic_port: u16,
    pub data_kcp_port: u16,
    pub data_transport: TransportKind,
    pub transports: Vec<TransportKind>,
    pub name: Option<String>,
    pub services: Vec<LocalService>,
    pub hub_host: Option<String>,
    pub hub_control_port: u16,
    pub hub_data_port: u16,
    pub hub_token: Option<String>,
    pub overlay: OverlayConfig,
}

pub open spec fn opt_text(o: Option<String>) -> Option<Seq<char>> {
    match o {
        Some(s) => Some(s@),
        None => None,
    }
}

pub fn default_server() -> (r: String)
    ensures
        r@ == "127.0.0.1"@,
{
    "127.0.0.1".to_owned()
}

pub fn default_control_port() -> (r: u16)
    ensures
        r == 7000,
{
    7000
}

pub fn default_data_port() -> (r: u16)
    ensures
        r == 7001,
{
    7001
}

pub fn default_data_quic_port() -> (r: u16)
    ensures
        r == 7002,
{
    7002
}

pub fn default_data_kcp_port() -> (r: u16)
    ensures
        r == 7003,
{
    7003
}

pub fn default_proto() -> (r: String)
    ensures
        r@ == "tcp"@,
{
    "tcp".to_owned()
}

pub fn default_hub_control_port() -> (r: u16)
    ensures
        r == 7100,
{
    7100
}

pub fn default_hub_data_port() -> (r: u16)
    ensures
        r == 7101,
{
    7101
}

/// All three transports, in the order they are offered.
pub open spec fn all_transports() -> Seq<TransportKind> {
    seq![TransportKind::Tcp, TransportKind::Quic, TransportKind::Kcp]
}

fn all_transports_vec() -> (r: Vec<TransportKind>)
    ensures
        r@ == all_transports(),
{
    let r = vec![TransportKind::Tcp, TransportKind::Quic, TransportKind::Kcp];
    assert(r@ =~= all_transports());
    r
}

/// A copy of a list of transports.
pub fn clone_transports(v: &Vec<TransportKind>) -> (r: Vec<TransportKind>)
    ensures
        r@ == v@,
{
    let mut out: Vec<TransportKind> = Vec::new();
    let mut i: usize = 0;
    while i < v.len()
        invariant
            i <= v.len(),
            out@ == v@.take(i as int),
        decreases v.len() - i,
    {
        out.push(v[i]);
        assert(out@ =~= v@.take(i + 1));
        i = i + 1;
    }
    assert(v@.take(i as int) =~= v@);
    out
}

impl Default for EdgeConfig {
    fn default() -> (r: Self)
        ensures
            r.node_id@ == "edge-demo"@,
            r.token@ == "REPLACE_WITH_TOKEN_FROM_ADMIN"@,
            r.server@ == "127.0.0.1"@,
            r.control_port == 7000,
            r.data_port == 7001,
            r.data_quic_port == 7002,
            r.data_kcp_port == 7003,
            r.data_transport == TransportKind::Tcp,
            r.transports@ == all_transports(),
            opt_text(r.name) == Some("demo-edge"@),
            r.services@.len() == 1,
            r.services@[0].service_id@ == "web"@,
            r.services@[0].name@ == "local-web"@,
            r.services@[0].protocol@ == "tcp"@,
            r.services@[0].local_addr@ == "127.0.0.1:8000"@,
            r.hub_host is None,
            r.hub_control_port == 7100,
            r.hub_data_port == 7101,
            r.hub_token is None,
            r.overlay@ == default_overlay_view(),
    {
        let mut services: Vec<LocalService> = Vec::new();
        services.push(
            LocalService {
                service_id: "web".to_owned(),
                name: "local-web".to_owned(),
                protocol: default_proto(),
                local_addr: "127.0.0.1:8000".to_owned(),
            },
        );
        EdgeConfig {
            node_id: "edge-demo".to_owned(),
            token: "REPLACE_WITH_TOKEN_FROM_ADMIN".to_owned(),
            server: default_server(),
            control_port: default_control_port(),
            data_port: default_data_port(),
            data_quic_port: default_data_quic_port(),
            data_kcp_port: default_data_kcp_port(),
            data_transport: TransportKind::Tcp,
            transports: all_transports_vec(),
            name: Some("demo-edge".to_owned()),
            services,
            hub_host: None,
            hub_control_port: default_hub_control_port(),
            hub_data_port: default_hub_data_port(),
            hub_token: None,
            overlay: OverlayConfig::default(),
        }
    }
}

impl EdgeConfig {
    /// The transports the edge offers: the configured list, or all three
    /// when none is configured.
    pub fn advertised_transports(&self) -> (r: Vec<TransportKind>)
        ensures
            r@ == if self.transports@.len() == 0 {
                all_transports()
            } else {
                self.transports@
            },
            r@.len() > 0,
    {
        if self.transports.len() == 0 {
            all_transports_vec()
        } else {
            clone_transports(&self.transports)
        }
    }

    /// The data port for transport `t`.
    pub fn port_for_transport(&self, t: TransportKind) -> (r: u16)
        ensures
            r == match t {
                TransportKind::Tcp => self.data_port,
                TransportKind::Quic => self.data_quic_port,
                TransportKind::Kcp => self.data_kcp_port,
            },
    {
        match t {
            TransportKind::Tcp => self.data_port,
            TransportKind::Quic => self.data_quic_port,
            TransportKind::Kcp => self.data_kcp_port,
        }
    }

    /// The hub host, trimmed, when one is configured and it is not blank.
    /// Without it the edge cannot run: visitor tunnels go through the hub.
    pub fn hub_host_trimmed(&self) -> (r: Option<String>)
        ensures
            match self.hub_host {
                Some(h) => if trim(h@).len() > 0 {
                    r is Some && r->0@ == trim(h@)
                } else {
                    r is None
                },
                None => r is None,
            },
    {
        match &self.hub_host {
            Some(h) => {
                let t = trim_str(h.as_str());
                if t.as_str().unicode_len() > 0 {
                    Some(t)
                } else {
                    None
                }
            },
            None => None,
        }
    }

    /// The token presented to the hub: `hub_token` when it is set and not
    /// empty, else the node token.
    pub fn hub_auth_token(&self) -> (r: String)
        ensures
            r@ == match self.hub_token {
                Some(t) => if t@.len() > 0 {
                    t@
                } else {
                    self.token@
                },
                None => self.token@,
            },
    {
        match &self.hub_token {
            Some(t) => if t.as_str().unicode_len() > 0 {
                t.clone()
            } else {
                self.token.clone()
            },
            None => self.token.clone(),
        }
    }

    /// `host:hub_control_port`, the hub's control endpoint.
    pub fn hub_control_endpoint(&self, host: &str) -> (r: String)
        ensures
            r@ == host@ + seq![':'] + decimal(self.hub_control_port as nat),
    {
        host_port(host, self.hub_control_port)
    }

    /// `host:hub_data_port`, the hub's relay endpoint.
    pub fn hub_data_endpoint(&self, host: &str) -> (r: String)
        ensures
            r@ == host@ + seq![':'] + decimal(self.hub_data_port as nat),
    {
        host_port(host, self.hub_data_port)
    }

    /// The overlay settings the edge joins the management mesh with: its
    /// own settings as a plain node, named after the edge when no overlay
    /// node id is set, and bootstrapping through the hub host's overlay port
    /// when no bootstrap endpoint is listed.
    pub fn mesh_overlay(&self) -> (r: OverlayConfig)
        ensures
            r@ == mesh_overlay_view(self.overlay@, self.node_id@, opt_text(self.hub_host)),
    {
        let mut o = self.overlay.clone();
        o.role = OverlayRole::Node;
        let blank = trim_str(o.node_id.as_str()).as_str().unicode_len() == 0;
        if blank {
            o.node_id = self.node_id.clone();
        }
        if o.bootstrap.len() == 0 {
            match &self.hub_host {
                Some(host) => {
                    let ghost before = o.bootstrap@;
                    o.bootstrap.push(host_port(host.as_str(), o.port));
                    assert(texts_view(o.bootstrap@) =~= texts_view(before).push(
                        host@ + seq![':'] + decimal(o.port as nat),
                    ));
                },
                None => {},
            }
        }
        assert(o@.bootstrap =~= mesh_overlay_view(self.overlay@, self.node_id@, opt_text(self.hub_host)).bootstrap);
        o
    }
}

pub open spec fn mesh_overlay_view(o: OverlayView, node_id: Seq<char>, hub_host: Option<Seq<char>>) -> OverlayView {
    let id = if trim(o.node_id).len() == 0 {
        node_id
    } else {
        o.node_id
    };
    let bootstrap = if o.bootstrap.len() == 0 {
        match hub_host {
            Some(h) => seq![h + seq![':'] + decimal(o.port as nat)],
            None => o.bootstrap,
        }
    } else {
        o.bootstrap
    };
    OverlayView { role: OverlayRole::Node, node_id: id, bootstrap, ..o }
}

// ---------------------------------------------------------------------------
// Roster handling
// ---------------------------------------------------------------------------

/// The peer is a server that is online.
pub open spec fn is_online_server(p: HubPeerInfo) -> bool {
    p.role == PeerRole::Server && p.online
}

/// The ids of `opened`.
pub open spec fn ids_view(v: Seq<String>) -> Seq<Seq<char>> {
    v.map_values(|s: String| s@)
}

/// The servers the edge opens management paths to for a roster `peers`,
/// having opened `opened` before: each online server of the roster, in
/// roster order, that is not opened yet and not named earlier in the same
/// roster.
pub open spec fn to_open(peers: Seq<HubPeerInfo>, opened: Set<Seq<char>>) -> Seq<Seq<char>>
    decreases peers.len(),
{
    if peers.len() == 0 {
        Seq::empty()
    } else {
        let before = to_open(peers.drop_last(), opened);
        let p = peers.last();
        if is_online_server(p) && !opened.contains(p.node_id@) && !before.contains(p.node_id@) {
            before.push(p.node_id@)
        } else {
            before
        }
    }
}

/// The edge's memory of the servers it has opened management paths to.
pub struct EdgeHubSession {
    opened: Vec<String>,
}

impl View for EdgeHubSession {
    type V = Set<Seq<char>>;

    closed spec fn view(&self) -> Set<Seq<char>> {
        ids_view(self.opened@).to_set()
    }
}

impl EdgeHubSession {
    /// A session that has opened nothing.
    pub fn new() -> (r: Self)
        ensures
            r@ == Set::<Seq<char>>::empty(),
    {
        let r = EdgeHubSession { opened: Vec::new() };
        assert(ids_view(r.opened@) =~= Seq::<Seq<char>>::empty());
        r
    }

    fn is_opened(&self, id: &str) -> (r: bool)
        ensures
            r == self@.contains(id@),
    {
        let mut i: usize = 0;
        while i < self.opened.len()
            invariant
                i <= self.opened.len(),
                forall|j: int| 0 <= j < i ==> self.opened@[j]@ != id@,
            decreases self.opened.len() - i,
        {
            if crate::text::str_eq(self.opened[i].as_str(), id) {
                assert(ids_view(self.opened@)[i as int] == id@);
                return true;
            }
            i = i + 1;
        }
        proof {
            if ids_view(self.opened@).to_set().contains(id@) {
                let j = choose|j: int| 0 <= j < ids_view(self.opened@).len() && ids_view(self.opened@)[j] == id@;
                assert(self.opened@[j]@ == id@);
            }
        }
        false
    }

    /// Takes in a new roster; gives the ids of the servers to open
    /// management paths to now, and remembers them as opened.
    pub fn on_roster(&mut self, peers: Vec<HubPeerInfo>) -> (r: Vec<String>)
        ensures
            ids_view(r@) == to_open(peers@, old(self)@),
            final(self)@ == old(self)@.union(ids_view(r@).to_set()),
    {
        let ghost start = self@;
        let mut out: Vec<String> = Vec::new();
        let mut rest = peers;
        let ghost orig = rest@;
        let ghost n = orig.len();
        while rest.len() > 0
            invariant
                n == orig.len(),
                rest@.len() <= n,
                rest@ == orig.subrange(n - rest@.len(), n as int),
                ids_view(out@) == to_open(orig.take(n - rest@.len()), start),
                self@ == start.union(ids_view(out@).to_set()),
            decreases rest.len(),
        {
            let ghost i = n - rest@.len();
            let p = rest.remove(0);
            proof {
                assert(p == orig[i]);
                assert(rest@ =~= orig.subrange(i + 1, n as int));
                assert(orig.take(i + 1).drop_last() =~= orig.take(i));
            }
            if p.role == PeerRole::Server && p.online && !self.is_opened(p.node_id.as_str()) {
                let id = p.node_id;
                let ghost idv = id@;
                let ghost old_out = out@;
                let ghost old_opened = self.opened@;
                proof {
                    assert(!start.contains(idv));
                    assert(!ids_view(old_out).contains(idv));
                }
                self.opened.push(id.clone());
                out.push(id);
                proof {
                    assert(ids_view(out@) =~= ids_view(old_out).push(idv));
                    assert(ids_view(self.opened@) =~= ids_view(old_opened).push(idv));
                    ids_view(old_opened).lemma_push_to_set_commute(idv);
                    ids_view(old_out).lemma_push_to_set_commute(idv);
                    assert(self@ =~= start.union(ids_view(out@).to_set()));
                }
            } else {
                proof {
                    if is_online_server(p) {
                        assert(self@.contains(p.node_id@));
                        if !start.contains(p.node_id@) {
                            assert(ids_view(out@).to_set().contains(p.node_id@));
                            assert(ids_view(out@).contains(p.node_id@));
                        }
                    }
                }
            }
        }
        assert(orig.take(n as int) =~= orig);
        out
    }

    /// Takes in the rosters `rosters` one after the other, as `on_roster`
    /// does; gives, in order, the ids of all the servers it opened
    /// management paths to, and remembers them as opened.
    pub fn on_rosters(&mut self, rosters: Vec<Vec<HubPeerInfo>>) -> (r: Vec<String>)
        ensures
            ids_view(r@) == session_opens(rosters_view(rosters@), old(self)@),
            final(self)@ == old(self)@.union(ids_view(r@).to_set()),
    {
        let ghost start = self@;
        let ghost all = rosters_view(rosters@);
        let ghost n = rosters@.len();
        let mut out: Vec<String> = Vec::new();
        let mut rest = rosters;
        proof {
            assert(all.take(0) =~= Seq::<Seq<HubPeerInfo>>::empty());
            assert(ids_view(out@) =~= Seq::<Seq<char>>::empty());
            assert(self@ =~= start.union(Set::<Seq<char>>::empty()));
        }
        while rest.len() > 0
            invariant
                n == all.len(),
                rest@.len() <= n,
                rosters_view(rest@) == all.subrange(n - rest@.len(), n as int),
                ids_view(out@) == session_opens(all.take(n - rest@.len()), start),
                self@ == start.union(ids_view(out@).to_set()),
            decreases rest.len(),
        {
            let ghost i = n - rest@.len();
            let ghost before = ids_view(out@);
            let ghost rest_before = rest@;
            let roster = rest.remove(0);
            proof {
                assert(rosters_view(rest_before)[0] == all[i]);
                assert(roster@ == all[i]);
                assert forall|k: int| 0 <= k < rest@.len() implies rosters_view(rest@)[k] == all[i + 1
                    + k] by {
                    assert(rest@[k] == rest_before[k + 1]);
                    assert(rosters_view(rest_before)[k + 1] == all[i + 1 + k]);
                }
                assert(rosters_view(rest@) =~= all.subrange(i + 1, n as int));
                assert(all.take(i + 1).drop_last() =~= all.take(i));
                assert(all.take(i + 1).last() == all[i]);
            }
            let mut got = self.on_roster(roster);
            let ghost fresh = ids_view(got@);
            out.append(&mut got);
            proof {
                assert(ids_view(out@) =~= before + fresh);
                seq_to_set_distributes_over_add(before, fresh);
                assert(self@ =~= start.union(ids_view(out@).to_set()));
            }
        }
        proof {
            assert(all.take(n as int) =~= all);
        }
        out
    }
}

/// A server is never asked for a second management path: the servers chosen
/// for a roster are new and distinct.
pub proof fn roster_opens_each_server_once(peers: Seq<HubPeerInfo>, opened: Set<Seq<char>>)
    ensures
        forall|i: int, j: int|
            0 <= i < j < to_open(peers, opened).len() ==> to_open(peers, opened)[i] != to_open(
                peers,
                opened,
            )[j],
        forall|i: int|
            0 <= i < to_open(peers, opened).len() ==> !opened.contains(
                #[trigger] to_open(peers, opened)[i],
            ),
    decreases peers.len(),
{
    if peers.len() > 0 {
        roster_opens_each_server_once(peers.drop_last(), opened);
        let before = to_open(peers.drop_last(), opened);
        let p = peers.last();
        if is_online_server(p) && !opened.contains(p.node_id@) && !before.contains(p.node_id@) {
            assert forall|i: int, j: int|
                0 <= i < j < to_open(peers, opened).len() implies to_open(peers, opened)[i] != to_open(
                peers,
                opened,
            )[j] by {
                if j == before.len() {
                    assert(before.contains(before[i]));
                }
            }
        }
    }
}

/// A server id is chosen for roster `peers` exactly when some online server
/// of the roster has it and it was not opened before.
pub proof fn lemma_to_open_members(peers: Seq<HubPeerInfo>, opened: Set<Seq<char>>, x: Seq<char>)
    ensures
        to_open(peers, opened).contains(x) <==> !opened.contains(x) && exists|k: int|
            0 <= k < peers.len() && is_online_server(#[trigger] peers[k]) && peers[k].node_id@ == x,
    decreases peers.len(),
{
    if peers.len() > 0 {
        let rest = peers.drop_last();
        lemma_to_open_members(rest, opened, x);
        let before = to_open(rest, opened);
        let p = peers.last();
        if exists|k: int| 0 <= k < rest.len() && is_online_server(#[trigger] rest[k]) && rest[k].node_id@ == x {
            let k = choose|k: int| 0 <= k < rest.len() && is_online_server(#[trigger] rest[k]) && rest[k].node_id@ == x;
            assert(peers[k] == rest[k]);
        }
        if exists|k: int| 0 <= k < peers.len() && is_online_server(#[trigger] peers[k]) && peers[k].node_id@ == x {
            let k = choose|k: int| 0 <= k < peers.len() && is_online_server(#[trigger] peers[k]) && peers[k].node_id@ == x;
            if k < rest.len() {
                assert(rest[k] == peers[k]);
            }
        }
        if is_online_server(p) && !opened.contains(p.node_id@) && !before.contains(p.node_id@) {
            let y = p.node_id@;
            let after = before.push(y);
            if after.contains(x) {
                let w = choose|w: int| 0 <= w < after.len() && after[w] == x;
                if w < before.len() {
                    assert(before[w] == x);
                }
            }
            if before.contains(x) {
                let w = choose|w: int| 0 <= w < before.len() && before[w] == x;
                assert(after[w] == x);
            }
            if x == y {
                assert(after[before.len() as int] == x);
            }
        }
    }
}

/// The rosters, each as the sequence of its entries.
pub open spec fn rosters_view(rs: Seq<Vec<HubPeerInfo>>) -> Seq<Seq<HubPeerInfo>> {
    rs.map_values(|v: Vec<HubPeerInfo>| v@)
}

/// The servers a session opens management paths to, having opened `opened`
/// first and then taken in the rosters `rs` in order: what `on_roster`
/// gives for each roster, one after the other.
pub open spec fn session_opens(rs: Seq<Seq<HubPeerInfo>>, opened: Set<Seq<char>>) -> Seq<Seq<char>>
    decreases rs.len(),
{
    if rs.len() == 0 {
        Seq::empty()
    } else {
        let before = session_opens(rs.drop_last(), opened);
        before + to_open(rs.last(), opened.union(before.to_set()))
    }
}

/// Some roster of `rs` lists `x` as an online server.
pub open spec fn online_in_some(rs: Seq<Seq<HubPeerInfo>>, x: Seq<char>) -> bool {
    exists|r: int, k: int|
        0 <= r < rs.len() && 0 <= k < rs[r].len() && is_online_server(#[trigger] rs[r][k])
            && rs[r][k].node_id@ == x
}

proof fn lemma_session_distinct(rs: Seq<Seq<HubPeerInfo>>, opened: Set<Seq<char>>)
    ensures
        forall|i: int, j: int|
            0 <= i < j < session_opens(rs, opened).len() ==> session_opens(rs, opened)[i]
                != session_opens(rs, opened)[j],
    decreases rs.len(),
{
    if rs.len() > 0 {
        let rest = rs.drop_last();
        lemma_session_distinct(rest, opened);
        let before = session_opens(rest, opened);
        let seen = opened.union(before.to_set());
        let now = to_open(rs.last(), seen);
        roster_opens_each_server_once(rs.last(), seen);
        let all = session_opens(rs, opened);
        assert(all == before + now);
        assert forall|i: int, j: int| 0 <= i < j < all.len() implies all[i] != all[j] by {
            if j >= before.len() && i < before.len() {
                assert(all[i] == before[i]);
                assert(all[j] == now[j - before.len()]);
                assert(before.to_set().contains(before[i]));
                assert(!seen.contains(now[j - before.len()]));
            } else if i >= before.len() {
                assert(all[i] == now[i - before.len()]);
                assert(all[j] == now[j - before.len()]);
            } else {
                assert(all[i] == before[i]);
                assert(all[j] == before[j]);
            }
        }
    }
}

proof fn lemma_session_members(rs: Seq<Seq<HubPeerInfo>>, opened: Set<Seq<char>>, x: Seq<char>)
    ensures
        session_opens(rs, opened).contains(x) <==> !opened.contains(x) && online_in_some(rs, x),
    decreases rs.len(),
{
    if rs.len() > 0 {
        let rest = rs.drop_last();
        lemma_session_members(rest, opened, x);
        let before = session_opens(rest, opened);
        let seen = opened.union(before.to_set());
        let now = to_open(rs.last(), seen);
        let all = session_opens(rs, opened);
        assert(all == before + now);
        lemma_to_open_members(rs.last(), seen, x);
        if all.contains(x) {
            let w = choose|w: int| 0 <= w < all.len() && all[w] == x;
            if w < before.len() {
                assert(before[w] == x);
                assert(before.contains(x));
                let (r, k) = choose|r: int, k: int|
                    0 <= r < rest.len() && 0 <= k < rest[r].len() && is_online_server(#[trigger] rest[r][k])
                        && rest[r][k].node_id@ == x;
                assert(rs[r] == rest[r]);
                assert(online_in_some(rs, x));
            } else {
                assert(now[w - before.len()] == x);
                assert(now.contains(x));
                let k = choose|k: int|
                    0 <= k < rs.last().len() && is_online_server(#[trigger] rs.last()[k]) && rs.last()[k].node_id@ == x;
                assert(rs[rs.len() - 1][k] == rs.last()[k]);
                assert(online_in_some(rs, x));
            }
        }
        if !opened.contains(x) && online_in_some(rs, x) {
            let (r, k) = choose|r: int, k: int|
                0 <= r < rs.len() && 0 <= k < rs[r].len() && is_online_server(#[trigger] rs[r][k])
                    && rs[r][k].node_id@ == x;
            if r < rest.len() {
                assert(rest[r] == rs[r]);
                assert(is_online_server(rest[r][k]));
                assert(online_in_some(rest, x));
                assert(before.contains(x));
                let w = choose|w: int| 0 <= w < before.len() && before[w] == x;
                assert(all[w] == x);
            } else if before.contains(x) {
                let w = choose|w: int| 0 <= w < before.len() && before[w] == x;
                assert(all[w] == x);
            } else {
                assert(rs.last()[k] == rs[r][k]);
                assert(!seen.contains(x));
                assert(now.contains(x));
                let w = choose|w: int| 0 <= w < now.len() && now[w] == x;
                assert(all[w + before.len()] == x);
            }
        }
    }
}

/// Over a whole session the edge opens exactly one management path to each
/// server that shows up online in some roster and was not opened before:
/// never twice, never to an edge or an offline peer.
pub proof fn session_opens_each_server_once(rs: Seq<Seq<HubPeerInfo>>, opened: Set<Seq<char>>)
    ensures
        forall|i: int, j: int|
            0 <= i < j < session_opens(rs, opened).len() ==> session_opens(rs, opened)[i]
                != session_opens(rs, opened)[j],
        forall|x: Seq<char>|
            session_opens(rs, opened).contains(x) <==> !opened.contains(x) && online_in_some(rs, x),
{
    lemma_session_distinct(rs, opened);
    assert forall|x: Seq<char>|
        session_opens(rs, opened).contains(x) <==> !opened.contains(x) && online_in_some(rs, x) by {
        lemma_session_members(rs, opened, x);
    }
}

} // verus!
