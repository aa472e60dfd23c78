//! The admin panel's own API: the list of registered servers, the requests
//! that change it, and the status of the hub; and where the panel's proxy
//! sends a management request (over the hub first, HTTP as the fallback).

use vstd::prelude::*;
use vstd::utf8::encode_utf8;
use crate::admin_config::{
    entries_view, http_base, http_base_of, opt_str, opt_str_ref, resolve_index, ConfigError, ServerEntry,
    ServerEntryView,
};
use crate::codec::{base64_standard_decoding, decode_hub_body};
use crate::hub::HubState;
use crate::proxy::{
    percent_decode_bytes, server_id_from_headers, server_id_from_uri, server_query_value, strip_server_query,
    stripped_query, utf8_lossy,
};
use crate::common::{HubPeerInfo, PeerRole};
use crate::registry::ServerRegistry;
use crate::text::{trim, trim_str};

verus! {

/// The registered servers and the default one.
pub struct ServersResponse {
    pub servers: Vec<ServerEntry>,
    pub default_server: Option<String>,
}

impl ServerRegistry {
    /// The servers and the default, as listed by the panel.
    pub fn servers_response(&self) -> (r: ServersResponse)
        ensures
            entries_view(r.servers@) == self@.servers,
            opt_str(r.default_server) == self@.default_server,
    {
        ServersResponse { servers: self.list(), default_server: self.default_server_id() }
    }
}

/// A request to add or replace a server.
pub struct UpsertServerReq {
    pub id: String,
    pub name: String,
    pub api_upstream: String,
    pub make_default: bool,
}

/// The entry a request describes: fields trimmed, and the id as name when
/// the name is blank.
pub open spec fn requested_entry(id: Seq<char>, name: Seq<char>, upstream: Seq<char>) -> ServerEntryView {
    ServerEntryView {
        id: trim(id),
        name: if trim(name).len() == 0 {
            trim(id)
        } else {
            trim(name)
        },
        api_upstream: trim(upstream),
    }
}

impl UpsertServerReq {
    /// The server entry the request describes.
    pub fn entry(&self) -> (r: ServerEntry)
        ensures
            r@ == requested_entry(self.id@, self.name@, self.api_upstream@),
    {
        let id = trim_str(self.id.as_str());
        let name = trim_str(self.name.as_str());
        let name = if name.as_str().unicode_len() == 0 {
            id.clone()
        } else {
            name
        };
        ServerEntry { id, name, api_upstream: trim_str(self.api_upstream.as_str()) }
    }
}

/// A request to change the default server.
pub struct DefaultReq {
    pub id: String,
}

/// The hub's status as the panel shows it.
pub struct HubStatus {
    pub control_port: u16,
    pub data_port: u16,
    pub listen: String,
    pub peers_total: usize,
    pub servers_online: usize,
    pub edges_online: usize,
}

/// How many roster entries have role `role`.
pub open spec fn count_role(peers: Seq<HubPeerInfo>, role: PeerRole) -> nat
    decreases peers.len(),
{
    if peers.len() == 0 {
        0
    } else {
        count_role(peers.drop_last(), role) + if peers.last().role == role {
            1nat
        } else {
            0nat
        }
    }
}

/// The hub's ports and listen address from the configuration, and how many
/// peers, servers and edges the roster holds.
pub fn hub_status(roster: &Vec<HubPeerInfo>, hub_listen: &str, control_port: u16, data_port: u16) -> (r: HubStatus)
    ensures
        r.control_port == control_port,
        r.data_port == data_port,
        r.listen@ == hub_listen@,
        r.peers_total == roster@.len(),
        r.servers_online == count_role(roster@, PeerRole::Server),
        r.edges_online == count_role(roster@, PeerRole::Edge),
{
    let mut servers: usize = 0;
    let mut edges: usize = 0;
    let mut i: usize = 0;
    while i < roster.len()
        invariant
            i <= roster.len(),
            servers == count_role(roster@.take(i as int), PeerRole::Server),
            edges == count_role(roster@.take(i as int), PeerRole::Edge),
            servers <= i,
            edges <= i,
        decreases roster.len() - i,
    {
        assert(roster@.take(i + 1).drop_last() =~= roster@.take(i as int));
        match roster[i].role {
            PeerRole::Server => {
                servers = servers + 1;
            },
            PeerRole::Edge => {
                edges = edges + 1;
            },
            PeerRole::Admin => {},
        }
        i = i + 1;
    }
    assert(roster@.take(i as int) =~= roster@);
    HubStatus {
        control_port,
        data_port,
        listen: hub_listen.to_owned(),
        peers_total: roster.len(),
        servers_online: servers,
        edges_online: edges,
    }
}

// ---------------------------------------------------------------------------
// Where the proxy sends a request
// ---------------------------------------------------------------------------

/// The server a request selects: the `x-nexus-server` header when it is not
/// blank, else the decoded `server=` pair of the query.
pub open spec fn selected_server(header: Option<Seq<char>>, query: Option<Seq<char>>) -> Option<Seq<char>> {
    match header {
        Some(h) if trim(h).len() > 0 => Some(trim(h)),
        _ => match query {
            Some(q) => match server_query_value(q) {
                Some(v) => Some(utf8_lossy(percent_decode_bytes(encode_utf8(v)))),
                None => None,
            },
            None => None,
        },
    }
}

/// The text of a selection error about the selected id `sel`.
pub open spec fn select_error_text(e: ConfigError, sel: Option<Seq<char>>) -> Seq<char> {
    "server select error: "@ + match e {
        ConfigError::UnknownServer(_) => "unknown server id: "@ + sel->0,
        ConfigError::NoServers => "no servers configured"@,
        ConfigError::DefaultMissing => "default server missing"@,
    }
}

/// Where a proxied management request goes.
pub enum ProxyRoute {
    /// No server can be selected: answered 400 with this text.
    Refuse(String),
    /// Over the hub to this connected server, with this path; the URL is the
    /// HTTP fallback when the hub channel fails.
    ViaHub { server_id: String, path: String, fallback_url: String },
    /// Over HTTP to this URL: the server is not connected to the hub.
    ViaHttp { url: String },
}

/// The request's server is connected to the hub as a server.
pub open spec fn on_hub(hub: Option<&HubState>, id: Seq<char>) -> bool {
    match hub {
        Some(h) => h.peers_view().contains_key(id) && h.peers_view()[id].role == PeerRole::Server,
        None => false,
    }
}

impl ServerRegistry {
    /// Where the proxy sends a request with `x-nexus-server` header value
    /// `server_header`, query `query` and path with query `path_and_query`:
    /// refused when no server can be selected; over the hub when the
    /// selected server is connected to it, with its upstream as the
    /// fallback; over HTTP to its upstream otherwise. The routing parameter
    /// is taken out of the forwarded path either way.
    pub fn route_request(
        &self,
        hub: Option<&HubState>,
        server_header: Option<&str>,
        query: Option<&str>,
        path_and_query: &str,
    ) -> (r: ProxyRoute)
        ensures
            ({
                let sel = selected_server(opt_str_ref(server_header), opt_str_ref(query));
                let path = stripped_query(path_and_query@);
                match resolve_index(self@, sel) {
                    Err(e) => r matches ProxyRoute::Refuse(m) && m@ == select_error_text(e, sel),
                    Ok(k) => {
                        let e = self@.servers[k];
                        let url = http_base_of(e.api_upstream) + path;
                        if on_hub(hub, e.id) {
                            r matches ProxyRoute::ViaHub { server_id, path: p, fallback_url } && server_id@
                                == e.id && p@ == path && fallback_url@ == url
                        } else {
                            r matches ProxyRoute::ViaHttp { url: u } && u@ == url
                        }
                    },
                }
            }),
    {
        let sel = match server_id_from_headers(server_header) {
            Some(s) => Some(s),
            None => server_id_from_uri(query),
        };
        let path = strip_server_query(path_and_query);
        let chosen = match &sel {
            Some(s) => self.resolve_entry(Some(s.as_str())),
            None => self.resolve_entry(None),
        };
        match chosen {
            Err(e) => {
                let mut m = "server select error: ".to_owned();
                let text = e.message();
                m.append(text.as_str());
                ProxyRoute::Refuse(m)
            },
            Ok(e) => {
                let mut url = http_base(e.api_upstream.as_str());
                url.append(path.as_str());
                let online = match hub {
                    Some(h) => h.is_server_online(e.id.as_str()),
                    None => false,
                };
                if online {
                    ProxyRoute::ViaHub { server_id: e.id, path, fallback_url: url }
                } else {
                    ProxyRoute::ViaHttp { url }
                }
            },
        }
    }
}

/// What came back from forwarding a request over the hub.
pub enum HubReply {
    /// The server's reply.
    Answer { status: u16, headers: Vec<(String, String)>, body_b64: Option<String>, error: Option<String> },
    /// Some other message came back.
    Unexpected,
    /// The hub channel failed (not connected, send failed, timed out).
    Failed,
}

/// What the proxy answers after the hub.
pub enum ProxyAnswer {
    /// The server's reply, with its body decoded.
    Respond { status: u16, headers: Vec<(String, String)>, body: Vec<u8> },
    /// 502 with this text.
    BadGateway(String),
    /// The hub channel failed: fall back to HTTP at this URL.
    ViaHttp { url: String },
}

/// The answer after forwarding over the hub: the server's reply when it came
/// without error, 502 on an error or an unexpected message, and the HTTP
/// fallback `fallback_url` only when the hub channel itself failed.
pub fn after_hub(reply: HubReply, fallback_url: String) -> (r: ProxyAnswer)
    ensures
        match reply {
            HubReply::Answer { status, headers, body_b64, error } => match error {
                Some(e) => r matches ProxyAnswer::BadGateway(m) && m@ == "hub mgmt error: "@ + e@,
                None => r matches ProxyAnswer::Respond { status: s, headers: h, body } && s == status
                    && h == headers && match body_b64 {
                    Some(t) => match base64_standard_decoding(encode_utf8(t@)) {
                        Some(b) => body@ == b,
                        None => body@.len() == 0,
                    },
                    None => body@.len() == 0,
                },
            },
            HubReply::Unexpected => r matches ProxyAnswer::BadGateway(m) && m@ == "unexpected hub response"@,
            HubReply::Failed => r matches ProxyAnswer::ViaHttp { url } && url == fallback_url,
        },
{
    match reply {
        HubReply::Answer { status, headers, body_b64, error } => match error {
            Some(e) => {
                let mut m = "hub mgmt error: ".to_owned();
                m.append(e.as_str());
                ProxyAnswer::BadGateway(m)
            },
            None => ProxyAnswer::Respond { status, headers, body: decode_hub_body(body_b64) },
        },
        HubReply::Unexpected => ProxyAnswer::BadGateway("unexpected hub response".to_owned()),
        HubReply::Failed => ProxyAnswer::ViaHttp { url: fallback_url },
    }
}

} // verus!
