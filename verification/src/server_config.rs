//! Configuration of a server node (`server.toml`): its visitor entries, the
//! local management API, the admin hub it dials, and what it advertises to
//! edges for direct data connections.

use vstd::prelude::*;
use crate::admin_config::host_port;
use crate::common::{OverlayConfig, OverlayRole, OverlayView, TransportKind, texts_view};
use crate::edge_config::{all_transports, clone_transports, opt_text};
use crate::text::{
    chars_of, contains_char, decimal, has_char, has_prefix, push_decimal, slice_vec,
    starts_with_chars, str_eq, string_from, trim, trim_str,
};

verus! {

/// A server node's configuration.
#[derive(Clone)]
pub struct ServerConfig {
    pub listen: String,
    /// TCP visitor entry.
    pub gateway_port: u16,
    /// QUIC visitor entry.
    pub gateway_quic_port: u16,
    /// KCP visitor entry.
    pub gateway_kcp_port: u16,
    /// Which visitor entries listen (all three by default).
    pub gateway_transports: Vec<TransportKind>,
    /// Localhost-only management API.
    pub api_port: u16,
    pub database_url: String,
    pub jwt_secret: String,
    pub jwt_ttl_secs: i64,
    pub admin_user: String,
    pub admin_password: String,
    pub max_connections: u64,
    pub enable_relay: bool,
    pub enable_p2p: bool,
    /// The admin hub this node dials (required to run).
    pub hub_host: Option<String>,
    pub hub_control_port: u16,
    pub hub_data_port: u16,
    pub hub_token: Option<String>,
    pub hub_server_id: Option<String>,
    /// TCP data port that edges dial for direct tunnels.
    pub data_port: u16,
    /// Host, or `host:port`, advertised to edges for direct dial.
    pub data_advertise: Option<String>,
    pub tcp_nodelay: bool,
    /// Socket buffer size hint in bytes (0 leaves the OS default).
    pub tcp_buffer_bytes: usize,
    pub overlay: OverlayConfig,
    /// Kept so older files still load; not used otherwise.
    pub control_port: Option<u16>,
    pub data_quic_port: Option<u16>,
    pub data_kcp_port: Option<u16>,
    pub data_transport: Option<TransportKind>,
    pub data_transports: Vec<TransportKind>,
}

pub fn default_listen() -> (r: String)
    ensures
        r@ == "0.0.0.0"@,
{
    "0.0.0.0".to_owned()
}

pub fn default_gateway_port() -> (r: u16)
    ensures
        r == 8080,
{
    8080
}

pub fn default_gateway_quic_port() -> (r: u16)
    ensures
        r == 8443,
{
    8443
}

pub fn default_gateway_kcp_port() -> (r: u16)
    ensures
        r == 8444,
{
    8444
}

pub fn default_gateway_transports() -> (r: Vec<TransportKind>)
    ensures
        r@ == all_transports(),
{
    let r = vec![TransportKind::Tcp, TransportKind::Quic, TransportKind::Kcp];
    assert(r@ =~= all_transports());
    r
}

pub fn default_api_port() -> (r: u16)
    ensures
        r == 3000,
{
    3000
}

pub fn default_db() -> (r: String)
    ensures
        r@ == "sqlite://data/p2p.db"@,
{
    "sqlite://data/p2p.db".to_owned()
}

pub fn default_jwt_secret() -> (r: String)
    ensures
        r@ == "change-me-in-production-p2p-network"@,
{
    "change-me-in-production-p2p-network".to_owned()
}

pub fn default_jwt_ttl() -> (r: i64)
    ensures
        r == 86400,
{
    86400
}

pub fn default_admin_user() -> (r: String)
    ensures
        r@ == "admin"@,
{
    "admin".to_owned()
}

pub fn default_admin_pass() -> (r: String)
    ensures
        r@ == "admin123"@,
{
    "admin123".to_owned()
}

pub fn default_hub_control_port() -> (r: u16)
    ensures
        r == 7100,
{
    7100
}

pub fn default_hub_data_port() -> (r: u16)
    ensures
        r == 7101,
{
    7101
}

pub fn default_data_port() -> (r: u16)
    ensures
        r == 7001,
{
    7001
}

pub fn default_tcp_nodelay() -> (r: bool)
    ensures
        r,
{
    true
}

/// The id a server announces to the hub unless configured otherwise: the
/// id of the panel's default server.
pub fn default_hub_server_id() -> (r: Option<String>)
    ensures
        r is Some && r->0@ == "default"@,
{
    Some("default".to_owned())
}

/// Default socket buffer hint: 256 KiB.
pub fn default_tcp_buffer_bytes() -> (r: usize)
    ensures
        r == 262144,
{
    262144
}

/// The overlay settings of a fresh server: enabled, in the server role,
/// named `default`, at `10.88.0.2`, bootstrapping through a hub on the same
/// machine.
pub open spec fn server_overlay_view() -> OverlayView {
    OverlayView {
        enabled: true,
        role: OverlayRole::Server,
        node_id: "default"@,
        fixed_vip: Some("10.88.0.2"@),
        bootstrap: seq!["127.0.0.1:51820"@],
        ..crate::common::default_overlay_view()
    }
}

impl Default for ServerConfig {
    fn default() -> (r: Self)
        ensures
            r.listen@ == "0.0.0.0"@,
            r.gateway_port == 8080,
            r.gateway_quic_port == 8443,
            r.gateway_kcp_port == 8444,
            r.gateway_transports@ == all_transports(),
            r.api_port == 3000,
            r.database_url@ == "sqlite://data/p2p.db"@,
            r.jwt_secret@ == "change-me-in-production-p2p-network"@,
            r.jwt_ttl_secs == 86400,
            r.admin_user@ == "admin"@,
            r.admin_password@ == "admin123"@,
            r.max_connections == 100000,
            r.enable_relay,
            r.enable_p2p,
            r.hub_host is None,
            r.hub_control_port == 7100,
            r.hub_data_port == 7101,
            r.hub_token is None,
            r.hub_server_id is Some && r.hub_server_id->0@ == "default"@,
            r.data_port == 7001,
            r.data_advertise is None,
            r.tcp_nodelay,
            r.tcp_buffer_bytes == 262144,
            r.overlay@ == server_overlay_view(),
            r.control_port is None,
            r.data_quic_port is None,
            r.data_kcp_port is None,
            r.data_transport is None,
            r.data_transports@.len() == 0,
    {
        let mut o = OverlayConfig::default();
        o.enabled = true;
        o.role = OverlayRole::Server;
        o.node_id = "default".to_owned();
        o.fixed_vip = Some("10.88.0.2".to_owned());
        let mut boot: Vec<String> = Vec::new();
        boot.push("127.0.0.1:51820".to_owned());
        o.bootstrap = boot;
        assert(texts_view(o.bootstrap@) =~= seq!["127.0.0.1:51820"@]);
        assert(o@ =~= server_overlay_view());
        ServerConfig {
            listen: default_listen(),
            gateway_port: default_gateway_port(),
            gateway_quic_port: default_gateway_quic_port(),
            gateway_kcp_port: default_gateway_kcp_port(),
            gateway_transports: default_gateway_transports(),
            api_port: default_api_port(),
            database_url: default_db(),
            jwt_secret: default_jwt_secret(),
            jwt_ttl_secs: default_jwt_ttl(),
            admin_user: default_admin_user(),
            admin_password: default_admin_pass(),
            max_connections: 100000,
            enable_relay: true,
            enable_p2p: true,
            hub_host: None,
            hub_control_port: default_hub_control_port(),
            hub_data_port: default_hub_data_port(),
            hub_token: None,
            hub_server_id: default_hub_server_id(),
            data_port: default_data_port(),
            data_advertise: None,
            tcp_nodelay: default_tcp_nodelay(),
            tcp_buffer_bytes: default_tcp_buffer_bytes(),
            overlay: o,
            control_port: None,
            data_quic_port: None,
            data_kcp_port: None,
            data_transport: None,
            data_transports: Vec::new(),
        }
    }
}

/// The endpoint advertised to edges for direct data connections: the
/// configured `data_advertise` (trimmed; `data_port` appended when it names
/// no port), else `127.0.0.1:data_port` when the hub is on this machine,
/// else nothing.
pub open spec fn advertised_endpoint(
    data_advertise: Option<Seq<char>>,
    hub_host: Option<Seq<char>>,
    data_port: u16,
) -> Option<Seq<char>> {
    let raw = match data_advertise {
        Some(a) => trim(a),
        None => Seq::empty(),
    };
    if data_advertise is Some && raw.len() > 0 {
        if has_char(raw, ':') {
            Some(raw)
        } else {
            Some(raw + seq![':'] + decimal(data_port as nat))
        }
    } else {
        match hub_host {
            Some(h) => if is_loopback_name(trim(h)) {
                Some("127.0.0.1"@ + seq![':'] + decimal(data_port as nat))
            } else {
                None
            },
            None => None,
        }
    }
}

/// A hub on this machine, named `127.0.0.1`, `localhost` or `::1`, and no
/// `data_advertise` (or a blank one): edges are told to dial `127.0.0.1`
/// at the data port.
pub proof fn loopback_hub_advertises_local_data_port(hub: Seq<char>, data_port: u16)
    requires
        hub == "127.0.0.1"@ || hub == "localhost"@ || hub == "::1"@,
    ensures
        advertised_endpoint(None, Some(hub), data_port) == Some(
            "127.0.0.1"@ + seq![':'] + decimal(data_port as nat),
        ),
        advertised_endpoint(Some(Seq::empty()), Some(hub), data_port) == Some(
            "127.0.0.1"@ + seq![':'] + decimal(data_port as nat),
        ),
{
    reveal_strlit("127.0.0.1");
    reveal_strlit("localhost");
    reveal_strlit("::1");
    assert(!crate::text::is_ws(hub[0]));
    assert(!crate::text::is_ws(hub.last()));
    assert(crate::text::trim_start(hub) == hub);
    assert(crate::text::trim_end(hub) == hub);
    assert(trim(hub) == hub);
    assert(trim(Seq::<char>::empty()) =~= Seq::<char>::empty());
}

/// A configured `data_advertise` that is not blank wins over the hub's
/// name: it is advertised as trimmed, with `:data_port` appended when it
/// names no port.
pub proof fn configured_advertise_wins(a: Seq<char>, hub: Option<Seq<char>>, data_port: u16)
    requires
        trim(a).len() > 0,
    ensures
        has_char(trim(a), ':') ==> advertised_endpoint(Some(a), hub, data_port) == Some(trim(a)),
        !has_char(trim(a), ':') ==> advertised_endpoint(Some(a), hub, data_port) == Some(
            trim(a) + seq![':'] + decimal(data_port as nat),
        ),
{
}

/// The hub names this machine.
pub open spec fn is_loopback_name(h: Seq<char>) -> bool {
    h == "127.0.0.1"@ || h == "localhost"@ || h == "::1"@
}

impl ServerConfig {
    /// The visitor entries that listen: the configured list, or all three
    /// when none is configured.
    pub fn enabled_gateway_transports(&self) -> (r: Vec<TransportKind>)
        ensures
            r@ == if self.gateway_transports@.len() == 0 {
                all_transports()
            } else {
                self.gateway_transports@
            },
    {
        if self.gateway_transports.len() == 0 {
            default_gateway_transports()
        } else {
            clone_transports(&self.gateway_transports)
        }
    }

    /// The visitor port of transport `t`.
    pub fn gateway_port_for(&self, t: TransportKind) -> (r: u16)
        ensures
            r == match t {
                TransportKind::Tcp => self.gateway_port,
                TransportKind::Quic => self.gateway_quic_port,
                TransportKind::Kcp => self.gateway_kcp_port,
            },
    {
        match t {
            TransportKind::Tcp => self.gateway_port,
            TransportKind::Quic => self.gateway_quic_port,
            TransportKind::Kcp => self.gateway_kcp_port,
        }
    }

    /// The `host:port` advertised to edges for direct dial, if any.
    pub fn advertised_data_endpoint(&self) -> (r: Option<String>)
        ensures
            opt_text(r) == advertised_endpoint(
                opt_text(self.data_advertise),
                opt_text(self.hub_host),
                self.data_port,
            ),
    {
        if let Some(a) = &self.data_advertise {
            let raw = trim_str(a.as_str());
            let cs = chars_of(raw.as_str());
            if cs.len() > 0 {
                if contains_char(cs.as_slice(), ':') {
                    return Some(raw);
                } else {
                    return Some(host_port(raw.as_str(), self.data_port));
                }
            }
        }
        if let Some(hub) = &self.hub_host {
            let h = trim_str(hub.as_str());
            if str_eq(h.as_str(), "127.0.0.1") || str_eq(h.as_str(), "localhost") || str_eq(
                h.as_str(),
                "::1",
            ) {
                return Some(host_port("127.0.0.1", self.data_port));
            }
        }
        None
    }

    /// The database file of a `sqlite://` database URL, whose parent
    /// directory must exist before the database opens.
    pub fn sqlite_path(&self) -> (r: Option<String>)
        ensures
            has_prefix(self.database_url@, "sqlite://"@) ==> r is Some && r->0@
                == self.database_url@.skip("sqlite://"@.len() as int),
            !has_prefix(self.database_url@, "sqlite://"@) ==> r is None,
    {
        let url = chars_of(self.database_url.as_str());
        let scheme = chars_of("sqlite://");
        if starts_with_chars(url.as_slice(), scheme.as_slice()) {
            let rest = slice_vec(url.as_slice(), scheme.len(), url.len());
            assert(rest@ =~= self.database_url@.skip("sqlite://"@.len() as int));
            Some(string_from(rest.as_slice()))
        } else {
            None
        }
    }

    /// The hub host when one is configured and it is not blank. The node
    /// cannot be managed without it.
    pub fn hub_host_checked(&self) -> (r: Option<String>)
        ensures
            match self.hub_host {
                Some(h) => if trim(h@).len() > 0 {
                    r is Some && r->0@ == h@
                } else {
                    r is None
                },
                None => r is None,
            },
    {
        match &self.hub_host {
            Some(h) => {
                let t = trim_str(h.as_str());
                if t.as_str().unicode_len() > 0 {
                    Some(h.clone())
                } else {
                    None
                }
            },
            None => None,
        }
    }

    /// `trim(host):hub_control_port`, the hub's control endpoint.
    pub fn hub_control_endpoint(&self, host: &str) -> (r: String)
        ensures
            r@ == trim(host@) + seq![':'] + decimal(self.hub_control_port as nat),
    {
        let h = trim_str(host);
        host_port(h.as_str(), self.hub_control_port)
    }

    /// `host:hub_data_port`, the hub's relay endpoint.
    pub fn hub_data_endpoint(&self, host: &str) -> (r: String)
        ensures
            r@ == host@ + seq![':'] + decimal(self.hub_data_port as nat),
    {
        host_port(host, self.hub_data_port)
    }

    /// The id this node announces to the hub: `hub_server_id` when set and
    /// not empty, else the machine's host name.
    pub fn hub_server_name(&self, hostname: &str) -> (r: String)
        ensures
            r@ == match self.hub_server_id {
                Some(id) => if id@.len() > 0 {
                    id@
                } else {
                    hostname@
                },
                None => hostname@,
            },
    {
        match &self.hub_server_id {
            Some(id) => if id.as_str().unicode_len() > 0 {
                id.clone()
            } else {
                hostname.to_owned()
            },
            None => hostname.to_owned(),
        }
    }

    /// The token this node presents to the hub; `None` when it is missing
    /// or empty, in which case the node does not dial.
    pub fn hub_auth_token(&self) -> (r: Option<String>)
        ensures
            match self.hub_token {
                Some(t) => if t@.len() > 0 {
                    r is Some && r->0@ == t@
                } else {
                    r is None
                },
                None => r is None,
            },
    {
        match &self.hub_token {
            Some(t) => if t.as_str().unicode_len() > 0 {
                Some(t.clone())
            } else {
                None
            },
            None => None,
        }
    }

    /// Applies an update of the management settings; fields that are not
    /// given keep their value.
    pub fn apply_update(&mut self, req: ServerConfigUpdate)
        ensures
            *final(self) == (ServerConfig {
                listen: match req.listen_addr {
                    Some(v) => v,
                    None => old(self).listen,
                },
                api_port: match req.api_port {
                    Some(v) => v,
                    None => old(self).api_port,
                },
                control_port: match req.control_port {
                    Some(v) => Some(v),
                    None => old(self).control_port,
                },
                data_port: match req.data_port {
                    Some(v) => v,
                    None => old(self).data_port,
                },
                ..*old(self)
            }),
    {
        if let Some(v) = req.listen_addr {
            self.listen = v;
        }
        if let Some(v) = req.api_port {
            self.api_port = v;
        }
        if let Some(v) = req.control_port {
            self.control_port = Some(v);
        }
        if let Some(v) = req.data_port {
            self.data_port = v;
        }
    }

    /// Applies the port numbers of a settings update. Numbers are cut to
    /// their low 16 bits, as `as u16` does.
    pub fn apply_settings_ports(&mut self, api_port: Option<u64>, control_port: Option<u64>, data_port: Option<u64>)
        ensures
            *final(self) == (ServerConfig {
                api_port: match api_port {
                    Some(p) => (p % 65536) as u16,
                    None => old(self).api_port,
                },
                control_port: match control_port {
                    Some(p) => Some((p % 65536) as u16),
                    None => old(self).control_port,
                },
                data_port: match data_port {
                    Some(p) => (p % 65536) as u16,
                    None => old(self).data_port,
                },
                ..*old(self)
            }),
    {
        if let Some(p) = api_port {
            self.api_port = low16(p);
        }
        if let Some(p) = control_port {
            self.control_port = Some(low16(p));
        }
        if let Some(p) = data_port {
            self.data_port = low16(p);
        }
    }
}

/// The low 16 bits of `p`.
pub fn low16(p: u64) -> (r: u16)
    ensures
        r == p % 65536,
{
    (p % 65536) as u16
}

/// An update of the server's management settings; absent fields are kept.
pub struct ServerConfigUpdate {
    pub listen_addr: Option<String>,
    pub api_port: Option<u16>,
    pub control_port: Option<u16>,
    pub data_port: Option<u16>,
    pub log_level: Option<String>,
}

} // verus!
