use nexusgate::admin_api::{after_hub, HubReply, ProxyAnswer, ProxyRoute};
use nexusgate::hub::HubState;
use nexusgate::admin_api::{hub_status, UpsertServerReq};
use nexusgate::admin_config::{
    default_hub_token, default_listen_port, host_port, http_base, ws_base, AdminConfig, ConfigError,
    ServerEntry,
};
use nexusgate::common::{HubPeerInfo, PeerRole};
use nexusgate::registry::{RegistryError, ServerRegistry};

fn err_of<T, E>(r: Result<T, E>) -> E {
    match r {
        Err(e) => e,
        Ok(_) => panic!("expected an error"),
    }
}

fn entry(id: &str, up: &str) -> ServerEntry {
    ServerEntry { id: id.to_string(), name: format!("server {}", id), api_upstream: up.to_string() }
}

fn ids(list: &[ServerEntry]) -> Vec<String> {
    list.iter().map(|e| e.id.clone()).collect()
}

fn two_servers() -> ServerRegistry {
    let mut cfg = AdminConfig::default();
    cfg.servers.push(entry("b", "https://b.example.com/"));
    cfg.normalize();
    ServerRegistry::new(cfg, "admin.toml".to_string())
}

#[test]
fn default_admin_config() {
    let c = AdminConfig::default();
    assert_eq!(c.listen, "0.0.0.0");
    assert_eq!(c.listen_port, 8088);
    assert_eq!(default_listen_port(), 8088);
    assert_eq!(c.api_upstream, "127.0.0.1:3000");
    assert_eq!(c.default_server.as_deref(), Some("default"));
    assert_eq!(c.servers.len(), 1);
    assert_eq!(c.servers[0].id, "default");
    assert_eq!(c.servers[0].api_upstream, "127.0.0.1:3000");
    assert!(c.hub_enabled);
    assert_eq!(c.hub_control_port, 7100);
    assert_eq!(c.hub_data_port, 7101);
    assert_eq!(c.hub_token, "change-me-hub-token");
    assert_eq!(default_hub_token(), "change-me-hub-token");
    assert_eq!(c.bind_addr(), "0.0.0.0:8088");
    assert_eq!(c.hub_control_addr(), "0.0.0.0:7100");
    assert_eq!(c.hub_data_addr(), "0.0.0.0:7101");
}

#[test]
fn normalize_seeds_and_repairs() {
    let mut c = AdminConfig::default();
    c.servers.clear();
    c.default_server = Some("gone".to_string());
    c.api_upstream = "10.0.0.1:3000".to_string();
    c.hub_token = "   ".to_string();
    c.normalize();
    assert_eq!(c.servers.len(), 1);
    assert_eq!(c.servers[0].id, "default");
    assert_eq!(c.servers[0].api_upstream, "10.0.0.1:3000");
    assert_eq!(c.default_server.as_deref(), Some("default"));
    assert_eq!(c.hub_token, "change-me-hub-token");

    let mut d = AdminConfig::default();
    d.servers = vec![entry("x", "h1:1"), entry("y", "h2:2")];
    d.default_server = Some("y".to_string());
    d.normalize();
    assert_eq!(d.api_upstream, "h2:2");
    let before = (d.default_server.clone(), d.api_upstream.clone(), d.hub_token.clone(), d.servers.len());
    d.normalize();
    assert_eq!(before, (d.default_server.clone(), d.api_upstream.clone(), d.hub_token.clone(), d.servers.len()));
}

#[test]
fn resolve_upstream_cases() {
    let mut c = AdminConfig::default();
    c.servers.push(entry("b", "b:1"));
    assert_eq!(c.resolve_upstream(Some("b")).unwrap().id, "b");
    assert_eq!(c.resolve_upstream(Some("")).unwrap().id, "default");
    assert_eq!(c.resolve_upstream(None).unwrap().id, "default");
    match c.resolve_upstream(Some("zzz")) {
        Err(e @ ConfigError::UnknownServer(_)) => assert_eq!(e.message(), "unknown server id: zzz"),
        other => panic!("unexpected {:?}", other.map(|e| e.id.clone())),
    }
    c.default_server = Some("gone".to_string());
    match c.resolve_upstream(None) {
        Err(e @ ConfigError::DefaultMissing) => assert_eq!(e.message(), "default server missing"),
        other => panic!("unexpected {:?}", other.map(|e| e.id.clone())),
    }
    c.default_server = None;
    assert_eq!(c.resolve_upstream(None).unwrap().id, "default");
    c.servers.clear();
    match c.resolve_upstream(None) {
        Err(e @ ConfigError::NoServers) => assert_eq!(e.message(), "no servers configured"),
        other => panic!("unexpected {:?}", other.map(|e| e.id.clone())),
    }
}

#[test]
fn base_urls() {
    assert_eq!(http_base("127.0.0.1:3000"), "http://127.0.0.1:3000");
    assert_eq!(http_base(" https://x.io/// "), "https://x.io");
    assert_eq!(http_base("http://a:1/"), "http://a:1");
    assert_eq!(ws_base("127.0.0.1:3000"), "ws://127.0.0.1:3000");
    assert_eq!(ws_base("https://x.io/"), "wss://x.io");
    assert_eq!(ws_base("http://a:1"), "ws://a:1");
    assert_eq!(ws_base("wss://a"), "wss://a");
    assert_eq!(ws_base("ws://a/"), "ws://a");
    assert_eq!(host_port("example.org", 443), "example.org:443");
}

#[test]
fn registry_resolve_gives_both_bases() {
    let reg = two_servers();
    assert_eq!(reg.path(), "admin.toml");
    let (http, ws) = reg.resolve(Some("b")).unwrap();
    assert_eq!(http, "https://b.example.com");
    assert_eq!(ws, "wss://b.example.com");
    let (http, ws) = reg.resolve(None).unwrap();
    assert_eq!(http, "http://127.0.0.1:3000");
    assert_eq!(ws, "ws://127.0.0.1:3000");
    assert!(matches!(reg.resolve(Some("nope")), Err(ConfigError::UnknownServer(id)) if id == "nope"));
    assert_eq!(reg.resolve_entry(Some("b")).unwrap().api_upstream, "https://b.example.com/");
}

#[test]
fn upsert_adds_replaces_and_refuses() {
    let mut reg = two_servers();
    let list = reg.upsert(entry("c", "c:3"), false).unwrap();
    assert_eq!(ids(&list), vec!["default", "b", "c"]);
    assert_eq!(reg.default_server_id().as_deref(), Some("default"));
    let list = reg.upsert(entry("b", "b2:2"), true).unwrap();
    assert_eq!(ids(&list), vec!["default", "b", "c"]);
    assert_eq!(list[1].api_upstream, "b2:2");
    assert_eq!(reg.default_server_id().as_deref(), Some("b"));
    assert_eq!(reg.snapshot().api_upstream, "b2:2");
    let (http, _) = reg.resolve(None).unwrap();
    assert_eq!(http, "http://b2:2");

    let e = err_of(reg.upsert(entry("  ", "x:1"), false));
    assert!(matches!(e, RegistryError::IdRequired));
    assert_eq!(e.message(), "server id required");
    let e = err_of(reg.upsert(entry("d", " "), false));
    assert!(matches!(e, RegistryError::UpstreamRequired));
    assert_eq!(e.message(), "api_upstream required");
    assert_eq!(reg.list().len(), 3);
}

#[test]
fn remove_and_set_default() {
    let mut reg = two_servers();
    let e = err_of(reg.remove("zzz"));
    assert_eq!(e.message(), "server not found: zzz");
    let e = err_of(reg.set_default("zzz"));
    assert!(matches!(e, RegistryError::NotFound(ref id) if id == "zzz"));
    let list = reg.set_default("b").unwrap();
    assert_eq!(list.len(), 2);
    assert_eq!(reg.default_server_id().as_deref(), Some("b"));
    assert_eq!(reg.snapshot().api_upstream, "https://b.example.com/");
    let list = reg.remove("b").unwrap();
    assert_eq!(ids(&list), vec!["default"]);
    assert_eq!(reg.default_server_id().as_deref(), Some("default"));
    assert!(reg.resolve(Some("b")).is_err());
    let e = err_of(reg.remove("default"));
    assert!(matches!(e, RegistryError::LastServer));
    assert_eq!(e.message(), "at least one server node is required");
}

#[test]
fn servers_response_and_upsert_request() {
    let reg = two_servers();
    let r = reg.servers_response();
    assert_eq!(ids(&r.servers), vec!["default", "b"]);
    assert_eq!(r.default_server.as_deref(), Some("default"));
    let req = UpsertServerReq {
        id: " n1 ".to_string(),
        name: "  ".to_string(),
        api_upstream: " 10.0.0.2:3000 ".to_string(),
        make_default: false,
    };
    let e = req.entry();
    assert_eq!(e.id, "n1");
    assert_eq!(e.name, "n1");
    assert_eq!(e.api_upstream, "10.0.0.2:3000");
}

#[test]
fn hub_status_counts_roles() {
    let peer = |id: &str, role: PeerRole| HubPeerInfo {
        node_id: id.to_string(),
        role,
        name: None,
        version: None,
        online: true,
    };
    let roster = vec![peer("s1", PeerRole::Server), peer("e1", PeerRole::Edge), peer("e2", PeerRole::Edge)];
    let st = hub_status(&roster, "0.0.0.0", 7100, 7101);
    assert_eq!(st.peers_total, 3);
    assert_eq!(st.servers_online, 1);
    assert_eq!(st.edges_online, 2);
    assert_eq!(st.listen, "0.0.0.0");
    assert_eq!((st.control_port, st.data_port), (7100, 7101));
}

#[test]
fn proxy_routes_requests() {
    let reg = two_servers();
    match reg.route_request(None, None, Some("server=nope"), "/api/health?server=nope") {
        ProxyRoute::Refuse(m) => assert_eq!(m, "server select error: unknown server id: nope"),
        _ => panic!("expected a refusal"),
    }
    match reg.route_request(None, None, None, "/api/nodes?page=2") {
        ProxyRoute::ViaHttp { url } => assert_eq!(url, "http://127.0.0.1:3000/api/nodes?page=2"),
        _ => panic!("expected HTTP"),
    }
    match reg.route_request(None, Some(" b "), Some("server=default"), "/api/x?server=default&k=v") {
        ProxyRoute::ViaHttp { url } => assert_eq!(url, "https://b.example.com/api/x?k=v"),
        _ => panic!("expected HTTP"),
    }
    let mut hub = HubState::new("t".to_string(), 40000);
    hub.add_peer("b".to_string(), PeerRole::Server);
    match reg.route_request(Some(&hub), None, Some("server=b"), "/api/x?server=b") {
        ProxyRoute::ViaHub { server_id, path, fallback_url } => {
            assert_eq!(server_id, "b");
            assert_eq!(path, "/api/x");
            assert_eq!(fallback_url, "https://b.example.com/api/x");
        }
        _ => panic!("expected the hub"),
    }
    match reg.route_request(Some(&hub), None, None, "/api/x") {
        ProxyRoute::ViaHttp { url } => assert_eq!(url, "http://127.0.0.1:3000/api/x"),
        _ => panic!("expected HTTP for a server not on the hub"),
    }
}

#[test]
fn proxy_answers_after_the_hub() {
    let fallback = "http://h/api".to_string();
    match after_hub(
        HubReply::Answer { status: 201, headers: vec![("a".into(), "b".into())], body_b64: Some("aGk=".into()), error: None },
        fallback.clone(),
    ) {
        ProxyAnswer::Respond { status, headers, body } => {
            assert_eq!(status, 201);
            assert_eq!(headers, vec![("a".to_string(), "b".to_string())]);
            assert_eq!(body, b"hi".to_vec());
        }
        _ => panic!("expected the reply"),
    }
    match after_hub(
        HubReply::Answer { status: 502, headers: vec![], body_b64: None, error: Some("refused".into()) },
        fallback.clone(),
    ) {
        ProxyAnswer::BadGateway(m) => assert_eq!(m, "hub mgmt error: refused"),
        _ => panic!("expected 502"),
    }
    match after_hub(HubReply::Unexpected, fallback.clone()) {
        ProxyAnswer::BadGateway(m) => assert_eq!(m, "unexpected hub response"),
        _ => panic!("expected 502"),
    }
    match after_hub(HubReply::Failed, fallback.clone()) {
        ProxyAnswer::ViaHttp { url } => assert_eq!(url, fallback),
        _ => panic!("expected the fallback"),
    }
}
