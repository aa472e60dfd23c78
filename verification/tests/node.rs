use nexusgate::session::{control_auth, ControlAuth, EdgeRecord, HubAction, HubEvent, HubLink};
use nexusgate::server_state::{DirectArrival, DirectTable, PendingDirect};
use nexusgate::api::{
    enabled_flag, extract_token, local_port_of, node_status, select_token, AppError, CreateNodeReq,
    RouteReq, ServiceReq, TokenSource, UserReq,
};
use nexusgate::common::{HubPeerInfo, OverlayConfig, OverlayRole, PeerRole, TransportKind};
use nexusgate::edge_config::{EdgeConfig, EdgeHubSession};
use nexusgate::hub_client::{local_mgmt_headers, local_mgmt_url, mgmt_reply};
use nexusgate::server_config::{low16, ServerConfig, ServerConfigUpdate};
use nexusgate::server_state::{edge_online_via_hub, nodes_online, LogEntry, ServerLog, LOG_CAPACITY};

fn peer(id: &str, role: PeerRole, online: bool) -> HubPeerInfo {
    HubPeerInfo { node_id: id.to_string(), role, name: None, version: None, online }
}

fn is_uuid(s: &str) -> bool {
    s.len() == 36
        && s.chars().enumerate().all(|(i, c)| {
            if i == 8 || i == 13 || i == 18 || i == 23 {
                c == '-'
            } else {
                c.is_ascii_digit() || ('a'..='f').contains(&c)
            }
        })
}

fn log_entry(n: usize, node: Option<&str>) -> LogEntry {
    LogEntry {
        id: format!("id-{}", n),
        timestamp: String::new(),
        level: "info".to_string(),
        target: "test".to_string(),
        node_id: node.map(|s| s.to_string()),
        message: format!("m{}", n),
    }
}

#[test]
fn overlay_defaults() {
    let o = OverlayConfig::default();
    assert!(!o.enabled);
    assert_eq!(o.port, 51820);
    assert_eq!(o.listen, "0.0.0.0");
    assert_eq!(o.subnet_cidr, "10.88.0.0/16");
    assert_eq!(o.role, OverlayRole::Node);
    assert!(o.bootstrap.is_empty());
    assert_eq!(TransportKind::default(), TransportKind::Tcp);
}

#[test]
fn edge_defaults_and_transports() {
    let mut c = EdgeConfig::default();
    assert_eq!(c.server, "127.0.0.1");
    assert_eq!(c.control_port, 7000);
    assert_eq!(c.data_port, 7001);
    assert_eq!(c.hub_control_port, 7100);
    assert_eq!(c.hub_data_port, 7101);
    assert_eq!(c.advertised_transports(), vec![TransportKind::Tcp, TransportKind::Quic, TransportKind::Kcp]);
    c.transports = vec![TransportKind::Kcp];
    assert_eq!(c.advertised_transports(), vec![TransportKind::Kcp]);
    assert_eq!(c.port_for_transport(TransportKind::Quic), c.data_quic_port);
    assert_eq!(c.port_for_transport(TransportKind::Kcp), 7003);
}

#[test]
fn edge_hub_settings() {
    let mut c = EdgeConfig::default();
    c.node_id = "edge-7".to_string();
    c.token = "node-token".to_string();
    assert_eq!(c.hub_host_trimmed(), None);
    c.hub_host = Some("   ".to_string());
    assert_eq!(c.hub_host_trimmed(), None);
    c.hub_host = Some(" hub.example ".to_string());
    assert_eq!(c.hub_host_trimmed().as_deref(), Some("hub.example"));
    assert_eq!(c.hub_auth_token(), "node-token");
    c.hub_token = Some(String::new());
    assert_eq!(c.hub_auth_token(), "node-token");
    c.hub_token = Some("hub-secret".to_string());
    assert_eq!(c.hub_auth_token(), "hub-secret");
    assert_eq!(c.hub_control_endpoint("hub.example"), "hub.example:7100");
    assert_eq!(c.hub_data_endpoint("hub.example"), "hub.example:7101");
    let o = c.mesh_overlay();
    assert_eq!(o.node_id, "edge-7");
    assert_eq!(o.role, OverlayRole::Node);
    assert_eq!(o.bootstrap, vec![" hub.example :51820".to_string()]);
}

#[test]
fn edge_opens_each_server_once() {
    let mut s = EdgeHubSession::new();
    let first = s.on_roster(vec![
        peer("s1", PeerRole::Server, true),
        peer("e1", PeerRole::Edge, true),
        peer("s2", PeerRole::Server, false),
        peer("s1", PeerRole::Server, true),
        peer("s3", PeerRole::Server, true),
    ]);
    assert_eq!(first, vec!["s1".to_string(), "s3".to_string()]);
    let second = s.on_roster(vec![peer("s3", PeerRole::Server, true), peer("s2", PeerRole::Server, true)]);
    assert_eq!(second, vec!["s2".to_string()]);
    assert!(s.on_roster(vec![peer("s1", PeerRole::Server, true)]).is_empty());
}

#[test]
fn server_defaults() {
    let c = ServerConfig::default();
    assert_eq!(c.listen, "0.0.0.0");
    assert_eq!(c.gateway_port, 8080);
    assert_eq!(c.api_port, 3000);
    assert_eq!(c.database_url, "sqlite://data/p2p.db");
    assert_eq!(c.jwt_ttl_secs, 86400);
    assert_eq!(c.admin_user, "admin");
    assert_eq!(c.hub_server_id.as_deref(), Some("default"));
    assert_eq!(c.data_port, 7001);
    assert_eq!(c.tcp_buffer_bytes, 262144);
    assert!(c.overlay.enabled);
    assert_eq!(c.overlay.role, OverlayRole::Server);
    assert_eq!(c.overlay.fixed_vip.as_deref(), Some("10.88.0.2"));
    assert_eq!(c.overlay.bootstrap, vec!["127.0.0.1:51820".to_string()]);
    assert_eq!(c.enabled_gateway_transports().len(), 3);
    assert_eq!(c.gateway_port_for(TransportKind::Kcp), 8444);
    assert_eq!(c.sqlite_path().as_deref(), Some("data/p2p.db"));
}

#[test]
fn server_advertised_endpoint() {
    let mut c = ServerConfig::default();
    assert_eq!(c.advertised_data_endpoint(), None);
    c.hub_host = Some(" localhost ".to_string());
    assert_eq!(c.advertised_data_endpoint().as_deref(), Some("127.0.0.1:7001"));
    c.hub_host = Some("hub.example".to_string());
    assert_eq!(c.advertised_data_endpoint(), None);
    c.data_advertise = Some(" 203.0.113.5 ".to_string());
    assert_eq!(c.advertised_data_endpoint().as_deref(), Some("203.0.113.5:7001"));
    c.data_advertise = Some("203.0.113.5:9000".to_string());
    assert_eq!(c.advertised_data_endpoint().as_deref(), Some("203.0.113.5:9000"));
    c.data_advertise = Some("  ".to_string());
    c.hub_host = Some("::1".to_string());
    assert_eq!(c.advertised_data_endpoint().as_deref(), Some("127.0.0.1:7001"));
}

#[test]
fn server_hub_settings() {
    let mut c = ServerConfig::default();
    assert_eq!(c.hub_host_checked(), None);
    c.hub_host = Some(" ".to_string());
    assert_eq!(c.hub_host_checked(), None);
    c.hub_host = Some("hub".to_string());
    assert_eq!(c.hub_host_checked().as_deref(), Some("hub"));
    assert_eq!(c.hub_control_endpoint(" hub "), "hub:7100");
    assert_eq!(c.hub_data_endpoint("hub"), "hub:7101");
    assert_eq!(c.hub_server_name("my-host"), "default");
    c.hub_server_id = None;
    assert_eq!(c.hub_server_name("my-host"), "my-host");
    c.hub_server_id = Some(String::new());
    assert_eq!(c.hub_server_name("my-host"), "my-host");
    c.hub_server_id = Some("srv-1".to_string());
    assert_eq!(c.hub_server_name("my-host"), "srv-1");
    assert_eq!(c.hub_auth_token(), None);
    c.hub_token = Some(String::new());
    assert_eq!(c.hub_auth_token(), None);
    c.hub_token = Some("t".to_string());
    assert_eq!(c.hub_auth_token().as_deref(), Some("t"));
    c.database_url = "postgres://x".to_string();
    assert_eq!(c.sqlite_path(), None);
}

#[test]
fn server_settings_updates() {
    let mut c = ServerConfig::default();
    c.apply_update(ServerConfigUpdate {
        listen_addr: Some("127.0.0.1".to_string()),
        api_port: None,
        control_port: Some(7500),
        data_port: Some(7600),
        log_level: None,
    });
    assert_eq!(c.listen, "127.0.0.1");
    assert_eq!(c.api_port, 3000);
    assert_eq!(c.control_port, Some(7500));
    assert_eq!(c.data_port, 7600);
    c.apply_settings_ports(Some(65536 + 80), None, Some(9000));
    assert_eq!(c.api_port, 80);
    assert_eq!(c.control_port, Some(7500));
    assert_eq!(c.data_port, 9000);
    assert_eq!(c.listen, "127.0.0.1");
    assert_eq!(c.admin_password, "admin123");
    assert_eq!(c.hub_server_id.as_deref(), Some("default"));
    assert_eq!(low16(70000), 4464);
}

#[test]
fn log_is_bounded_and_newest_first() {
    let mut log = ServerLog::new();
    for n in 0..LOG_CAPACITY + 5 {
        let node = if n % 2 == 0 { Some("e1") } else { None };
        log.push(log_entry(n, node));
    }
    assert_eq!(log.len(), LOG_CAPACITY);
    let recent = log.recent(3);
    let ids: Vec<String> = recent.iter().map(|e| e.id.clone()).collect();
    let last = LOG_CAPACITY + 4;
    assert_eq!(ids, vec![format!("id-{}", last), format!("id-{}", last - 1), format!("id-{}", last - 2)]);
    let mine = log.recent_for_node("e1", 2);
    let ids: Vec<String> = mine.iter().map(|e| e.id.clone()).collect();
    assert_eq!(ids, vec![format!("id-{}", last), format!("id-{}", last - 2)]);
    assert_eq!(log.recent(LOG_CAPACITY + 100).len(), LOG_CAPACITY);
    assert_eq!(log.recent(LOG_CAPACITY + 100).last().unwrap().id, "id-5");
}

#[test]
fn push_log_stamps_entries() {
    let mut log = ServerLog::new();
    log.push_log("warn", "tunnel", Some("e9".to_string()), "lost".to_string());
    assert_eq!(log.len(), 1);
    let e = &log.recent(1)[0];
    assert_eq!(e.level, "warn");
    assert_eq!(e.target, "tunnel");
    assert_eq!(e.node_id.as_deref(), Some("e9"));
    assert_eq!(e.message, "lost");
    assert!(is_uuid(&e.id));
    assert!(e.timestamp.len() >= 20);
    assert!(e.timestamp.ends_with('Z'));
    assert_eq!(&e.timestamp[10..11], "T");
}

#[test]
fn online_edges() {
    let roster = vec![
        peer("e1", PeerRole::Edge, true),
        peer("e2", PeerRole::Edge, false),
        peer("s1", PeerRole::Server, true),
        peer("e3", PeerRole::Edge, true),
    ];
    assert!(edge_online_via_hub(&roster, "e1", false));
    assert!(!edge_online_via_hub(&roster, "e2", false));
    assert!(!edge_online_via_hub(&roster, "s1", false));
    assert!(edge_online_via_hub(&roster, "zz", true));
    assert_eq!(nodes_online(&roster, 1), 2);
    assert_eq!(nodes_online(&roster, 5), 5);
}

#[test]
fn tokens_of_requests() {
    assert_eq!(extract_token(Some("Bearer abc")).as_deref(), Some("abc"));
    assert_eq!(extract_token(Some("bearer abc")), None);
    assert_eq!(extract_token(None), None);
    assert!(matches!(select_token("/api/x", Some("Bearer h"), Some("token=q")), TokenSource::Header(t) if t == "h"));
    assert!(matches!(select_token("/ws/logs", None, Some("a=1&token=q&token=r")), TokenSource::Query(t) if t == "q"));
    assert!(matches!(select_token("/api/x", None, Some("token=q")), TokenSource::Missing));
    assert!(matches!(select_token("/ws/logs", Some("Basic x"), None), TokenSource::Missing));
}

#[test]
fn handler_rules() {
    assert_eq!(node_status(0, true), "disabled");
    assert_eq!(node_status(1, true), "online");
    assert_eq!(node_status(1, false), "offline");
    assert_eq!(local_port_of("127.0.0.1:8080"), 8080);
    assert_eq!(local_port_of("[::1]:+22"), 22);
    assert_eq!(local_port_of("localhost"), 0);
    assert_eq!(local_port_of("host:99999"), 0);
    assert_eq!(enabled_flag(None), 1);
    assert_eq!(enabled_flag(Some(true)), 1);
    assert_eq!(enabled_flag(Some(false)), 0);
}

#[test]
fn app_errors() {
    let e = AppError::unauthorized("missing token");
    assert_eq!(e.status(), 401);
    assert_eq!(e.message(), "missing token");
    assert_eq!(AppError::bad_request("x").status(), 400);
    assert_eq!(AppError::not_found("node").status(), 404);
    let e = AppError::internal("db down".to_string());
    assert_eq!(e.status(), 500);
    assert_eq!(e.message(), "db down");
}

#[test]
fn generated_ids_and_defaults() {
    let req = CreateNodeReq { name: "n".to_string(), node_id: None };
    let id = req.node_id_or_new();
    assert_eq!(id.len(), 13);
    assert!(id.starts_with("edge-"));
    assert!(id[5..].chars().all(|c| c.is_ascii_hexdigit()));
    let req = CreateNodeReq { name: "n".to_string(), node_id: Some("mine".to_string()) };
    assert_eq!(req.node_id_or_new(), "mine");
    let svc = ServiceReq {
        name: "ssh".to_string(),
        node_id: "n".to_string(),
        protocol: "tcp".to_string(),
        local_addr: "127.0.0.1:22".to_string(),
        enabled: None,
        description: None,
        service_id: None,
    };
    assert!(is_uuid(&svc.id_or_new()));
    let route = RouteReq {
        name: "r".to_string(),
        public_port: 2222,
        protocol: "tcp".to_string(),
        node_id: "n".to_string(),
        service_id: "s".to_string(),
        enabled: None,
        description: None,
        route_id: Some("r-1".to_string()),
    };
    assert_eq!(route.id_or_new(), "r-1");
    let user = UserReq { username: "u".to_string(), password: None, role: None, enabled: None, email: None };
    assert_eq!(user.password_or_default(), "changeme");
    assert_eq!(user.role_or_default(), "viewer");
}

#[test]
fn management_replay() {
    assert_eq!(local_mgmt_url(3000, "/api/nodes?x=1"), "http://127.0.0.1:3000/api/nodes?x=1");
    let hs = vec![
        ("Host".to_string(), "a".to_string()),
        ("Content-Type".to_string(), "json".to_string()),
        ("CONTENT-LENGTH".to_string(), "3".to_string()),
    ];
    assert_eq!(local_mgmt_headers(hs), vec![("Content-Type".to_string(), "json".to_string())]);
    let ok = mgmt_reply("r1".to_string(), Ok((200, vec![], b"hi".to_vec())));
    assert_eq!(ok.request_id, "r1");
    assert_eq!(ok.status, 200);
    assert_eq!(ok.body_b64.as_deref(), Some("aGk="));
    assert_eq!(ok.error, None);
    let bad = mgmt_reply("r2".to_string(), Err("refused".to_string()));
    assert_eq!(bad.status, 502);
    assert_eq!(bad.body_b64, None);
    assert_eq!(bad.error.as_deref(), Some("refused"));
}

#[test]
fn direct_dial_table() {
    let mut t = DirectTable::new();
    t.register(PendingDirect {
        connection_id: "c1".into(),
        data_token: "tok".into(),
        node_id: "e1".into(),
        local_addr: "127.0.0.1:22".into(),
        protocol: "tcp".into(),
        created_at_ms: 1000,
    });
    assert!(t.contains("c1"));
    assert!(matches!(t.on_direct_data("c2", "tok"), DirectArrival::Unknown));
    assert!(matches!(t.on_direct_data("c1", "bad"), DirectArrival::BadToken));
    assert!(t.contains("c1"));
    match t.on_direct_data("c1", "tok") {
        DirectArrival::Accept(p) => {
            assert_eq!(p.node_id, "e1");
            assert_eq!(p.local_addr, "127.0.0.1:22");
        }
        _ => panic!("expected the waiting visitor"),
    }
    assert!(!t.contains("c1"));
    assert!(matches!(t.on_direct_data("c1", "tok"), DirectArrival::Unknown));
}

#[test]
fn direct_dial_cleanup_and_take() {
    let entry = |id: &str, at: u64| PendingDirect {
        connection_id: id.into(),
        data_token: "t".into(),
        node_id: "e".into(),
        local_addr: "a".into(),
        protocol: "tcp".into(),
        created_at_ms: at,
    };
    let mut t = DirectTable::new();
    t.register(entry("old", 0));
    t.register(entry("new", 20000));
    t.cleanup(30001, 30000);
    assert!(!t.contains("old"));
    assert!(t.contains("new"));
    assert_eq!(t.take("new").map(|p| p.connection_id), Some("new".to_string()));
    assert!(t.take("new").is_none());
}

#[test]
fn edge_session_over_several_rosters() {
    let mut s = EdgeHubSession::new();
    let mut all: Vec<String> = Vec::new();
    for r in three_rosters() {
        all.extend(s.on_roster(r));
    }
    assert_eq!(all, vec!["s1".to_string(), "s2".to_string(), "s3".to_string()]);
    let mut once = EdgeHubSession::new();
    assert_eq!(once.on_rosters(three_rosters()), all);
    let later = vec![vec![peer("s3", PeerRole::Server, true), peer("s4", PeerRole::Server, true)]];
    assert_eq!(once.on_rosters(later), vec!["s4".to_string()]);
    assert!(once.on_rosters(Vec::new()).is_empty());
}

fn three_rosters() -> Vec<Vec<HubPeerInfo>> {
    vec![
        vec![peer("s1", PeerRole::Server, true), peer("s2", PeerRole::Server, false)],
        vec![peer("s2", PeerRole::Server, true), peer("s1", PeerRole::Server, true)],
        vec![peer("e1", PeerRole::Edge, true), peer("s3", PeerRole::Server, true), peer("s2", PeerRole::Server, true)],
    ]
}

#[test]
fn hub_session_opening() {
    let s = HubLink::start();
    assert_eq!(s, HubLink::AwaitHello);
    let (s, a) = s.step(HubEvent::Hello);
    assert_eq!((s, a), (HubLink::AwaitAuth, HubAction::SendAuth));
    let (s, a) = s.step(HubEvent::AuthOk);
    assert_eq!((s, a), (HubLink::Running, HubAction::SendRegister));
    assert_eq!(s.step(HubEvent::Other), (HubLink::Running, HubAction::Handle));
    assert_eq!(s.step(HubEvent::Silence), (HubLink::Closed, HubAction::GiveUp));
    assert_eq!(HubLink::AwaitHello.step(HubEvent::AuthOk), (HubLink::Closed, HubAction::GiveUp));
    assert_eq!(HubLink::AwaitAuth.step(HubEvent::Error), (HubLink::Closed, HubAction::GiveUp));
}

#[test]
fn control_port_admission() {
    assert_eq!(control_auth(false, Some(true), true), ControlAuth::AuthRequired);
    assert_eq!(control_auth(true, None, true), ControlAuth::UnknownNode);
    assert_eq!(control_auth(true, Some(false), true), ControlAuth::AuthFailed);
    assert_eq!(control_auth(true, Some(true), false), ControlAuth::AuthFailed);
    assert_eq!(control_auth(true, Some(true), true), ControlAuth::Accept);
}

#[test]
fn edge_record_updates() {
    let mut r = EdgeRecord {
        node_id: "e1".into(),
        name: "n".into(),
        version: "0.1.0".into(),
        public_ip: Some("1.2.3.4".into()),
        nat_type: None,
        transports: vec![TransportKind::Tcp],
    };
    r.on_register(None, vec![]);
    assert_eq!(r.version, "0.1.0");
    assert_eq!(r.transports, vec![TransportKind::Tcp]);
    r.on_register(Some("0.2.0".into()), vec![TransportKind::Quic]);
    assert_eq!(r.version, "0.2.0");
    assert_eq!(r.transports, vec![TransportKind::Quic]);
    r.on_nat_info(Some("full-cone".into()), None);
    assert_eq!(r.nat_type.as_deref(), Some("full-cone"));
    assert_eq!(r.public_ip.as_deref(), Some("1.2.3.4"));
    r.on_nat_info(None, Some("5.6.7.8".into()));
    assert_eq!(r.nat_type, None);
    assert_eq!(r.public_ip.as_deref(), Some("5.6.7.8"));
}
