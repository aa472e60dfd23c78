//! Vocabulary shared by the admin hub, the server node and the edge client:
//! transports, peer roles, peer-path kinds and the overlay settings.

use vstd::prelude::*;

verus! {

/// Transport of a tunnel leg.
#[derive(PartialEq, Eq, Structural, Clone, Copy, Debug)]
pub enum TransportKind {
    Tcp,
    Quic,
    Kcp,
}

impl Default for TransportKind {
    fn default() -> (r: Self)
        ensures
            r == TransportKind::Tcp,
    {
        TransportKind::Tcp
    }
}

/// What a peer of the admin hub is.
#[derive(PartialEq, Eq, Structural, Clone, Copy, Debug)]
pub enum PeerRole {
    Server,
    Edge,
    Admin,
}

/// What a peer path between two hub peers carries.
#[derive(PartialEq, Eq, Structural, Clone, Copy, Debug)]
pub enum PeerPathPurpose {
    /// Management traffic.
    Mgmt,
    /// A visitor's tunnel.
    Data,
}

/// How a peer path is carried.
#[derive(PartialEq, Eq, Structural, Clone, Copy, Debug)]
pub enum PathKind {
    /// Directly between the peers.
    P2p,
    /// Through the hub's relay port.
    Relay,
}

/// One peer of the hub's roster.
pub struct HubPeerInfo {
    pub node_id: String,
    pub role: PeerRole,
    pub name: Option<String>,
    pub version: Option<String>,
    pub online: bool,
}

/// Role of a node in the management overlay.
#[derive(PartialEq, Eq, Structural, Clone, Copy, Debug)]
pub enum OverlayRole {
    Server,
    Node,
}

/// Settings of the management overlay (the `[overlay]` table).
pub struct OverlayConfig {
    pub enabled: bool,
    /// UDP port of this node's overlay endpoint.
    pub port: u16,
    pub listen: String,
    pub subnet_cidr: String,
    /// Shared secret of the overlay; the same on every node.
    pub token: String,
    pub role: OverlayRole,
    pub node_id: String,
    pub fixed_vip: Option<String>,
    /// `host:port` endpoints to join the overlay through.
    pub bootstrap: Vec<String>,
    pub create_tun: bool,
}

pub struct OverlayView {
    pub enabled: bool,
    pub port: u16,
    pub listen: Seq<char>,
    pub subnet_cidr: Seq<char>,
    pub token: Seq<char>,
    pub role: OverlayRole,
    pub node_id: Seq<char>,
    pub fixed_vip: Option<Seq<char>>,
    pub bootstrap: Seq<Seq<char>>,
    pub create_tun: bool,
}

pub open spec fn texts_view(v: Seq<String>) -> Seq<Seq<char>> {
    v.map_values(|s: String| s@)
}

impl View for OverlayConfig {
    type V = OverlayView;

    open spec fn view(&self) -> OverlayView {
        OverlayView {
            enabled: self.enabled,
            port: self.port,
            listen: self.listen@,
            subnet_cidr: self.subnet_cidr@,
            token: self.token@,
            role: self.role,
            node_id: self.node_id@,
            fixed_vip: match self.fixed_vip {
                Some(v) => Some(v@),
                None => None,
            },
            bootstrap: texts_view(self.bootstrap@),
            create_tun: self.create_tun,
        }
    }
}

/// The overlay settings that the documentation lists as defaults: port
/// 51820 on all interfaces, subnet `10.88.0.0/16`, no token yet, plain node
/// role, no system TUN device.
pub open spec fn default_overlay_view() -> OverlayView {
    OverlayView {
        enabled: false,
        port: 51820,
        listen: "0.0.0.0"@,
        subnet_cidr: "10.88.0.0/16"@,
        token: Seq::empty(),
        role: OverlayRole::Node,
        node_id: Seq::empty(),
        fixed_vip: None,
        bootstrap: Seq::empty(),
        create_tun: false,
    }
}

impl Default for OverlayConfig {
    fn default() -> (r: Self)
        ensures
            r@ == default_overlay_view(),
    {
        let r = OverlayConfig {
            enabled: false,
            port: 51820,
            listen: "0.0.0.0".to_owned(),
            subnet_cidr: "10.88.0.0/16".to_owned(),
            token: String::new(),
            role: OverlayRole::Node,
            node_id: String::new(),
            fixed_vip: None,
            bootstrap: Vec::new(),
            create_tun: false,
        };
        assert(r@.bootstrap =~= Seq::<Seq<char>>::empty());
        r
    }
}

/// A copy of a list of strings.
pub fn clone_texts(v: &Vec<String>) -> (r: Vec<String>)
    ensures
        texts_view(r@) == texts_view(v@),
        r@.len() == v@.len(),
{
    let mut out: Vec<String> = Vec::new();
    let mut i: usize = 0;
    while i < v.len()
        invariant
            i <= v.len(),
            out@.len() == i,
            texts_view(out@) == texts_view(v@).take(i as int),
        decreases v.len() - i,
    {
        let s = v[i].clone();
        let ghost old_out = out@;
        out.push(s);
        proof {
            let a = texts_view(out@);
            let b = texts_view(v@).take(i + 1);
            assert forall|j: int| 0 <= j < a.len() implies a[j] == b[j] by {
                if j < i {
                    assert(out@[j] == old_out[j]);
                    assert(texts_view(old_out)[j] == old_out[j]@);
                }
            }
            assert(a =~= b);
        }
        i = i + 1;
    }
    assert(texts_view(v@).take(i as int) =~= texts_view(v@));
    out
}

impl Clone for OverlayConfig {
    fn clone(&self) -> (r: Self)
        ensures
            r@ == self@,
    {
        OverlayConfig {
            enabled: self.enabled,
            port: self.port,
            listen: self.listen.clone(),
            subnet_cidr: self.subnet_cidr.clone(),
            token: self.token.clone(),
            role: self.role,
            node_id: self.node_id.clone(),
            fixed_vip: self.fixed_vip.clone(),
            bootstrap: clone_texts(&self.bootstrap),
        create_tun: self.create_tun,
        }
    }
}

} // verus!
