use nexusgate::codec::{decode_forward_body, decode_hub_body, request_body_b64};
use nexusgate::common::{PathKind, PeerPathPurpose, PeerRole};
use nexusgate::hub::{is_fresh, DataArrival, HubAuthError, HubError, HubState, PendingPath};

fn err_of<T, E>(r: Result<T, E>) -> E {
    match r {
        Err(e) => e,
        Ok(_) => panic!("expected an error"),
    }
}

fn is_uuid(s: &str) -> bool {
    s.len() == 36
        && s.chars().enumerate().all(|(i, c)| {
            if i == 8 || i == 13 || i == 18 || i == 23 {
                c == '-'
            } else {
                c.is_ascii_digit() || ('a'..='f').contains(&c)
            }
        })
}

fn hub_with_peers() -> HubState {
    let mut hub = HubState::new("secret".to_string(), 40000);
    hub.add_peer("srv".to_string(), PeerRole::Server);
    hub.add_peer("edge".to_string(), PeerRole::Edge);
    hub
}

#[test]
fn tokens_and_roles() {
    let hub = HubState::new("secret".to_string(), 40000);
    assert!(hub.verify_token("secret"));
    assert!(!hub.verify_token("Secret"));
    assert_eq!(hub.authorize("secret", None), Ok(PeerRole::Edge));
    assert_eq!(hub.authorize("secret", Some(PeerRole::Server)), Ok(PeerRole::Server));
    assert_eq!(hub.authorize("secret", Some(PeerRole::Admin)), Err(HubAuthError::InvalidRole));
    assert_eq!(hub.authorize("wrong", Some(PeerRole::Server)), Err(HubAuthError::AuthFailed));
    let open = HubState::new(String::new(), 40000);
    assert!(!open.verify_token(""));
    assert_eq!(open.authorize("", None), Err(HubAuthError::AuthFailed));
}

#[test]
fn roster_lists_connected_peers() {
    let mut hub = hub_with_peers();
    hub.on_register("srv", Some("host-a".to_string()), Some("1.2.3".to_string()));
    hub.on_register("ghost", Some("x".to_string()), None);
    let mut roster = hub.roster();
    roster.sort_by(|a, b| a.node_id.cmp(&b.node_id));
    assert_eq!(roster.len(), 2);
    assert_eq!(roster[0].node_id, "edge");
    assert_eq!(roster[0].role, PeerRole::Edge);
    assert_eq!(roster[0].name, None);
    assert_eq!(roster[1].node_id, "srv");
    assert_eq!(roster[1].name.as_deref(), Some("host-a"));
    assert_eq!(roster[1].version.as_deref(), Some("1.2.3"));
    assert!(roster.iter().all(|p| p.online));
    assert!(hub.is_server_online("srv"));
    assert!(!hub.is_server_online("edge"));
    hub.remove_peer("srv");
    assert!(!hub.is_server_online("srv"));
    assert_eq!(hub.roster().len(), 1);
}

#[test]
fn peer_path_offers_and_relay_legs() {
    let mut hub = hub_with_peers();
    let r = hub.open_peer_path(
        "edge",
        "srv",
        "req-1",
        PeerPathPurpose::Data,
        true,
        Some("127.0.0.1:22".to_string()),
        Some(40001),
        "tok-1".to_string(),
        1000,
    );
    let (a, b) = r.unwrap();
    assert!(is_uuid(&a.connection_id));
    assert_eq!(a.connection_id, b.connection_id);
    assert_eq!(a.peer_node_id, "srv");
    assert_eq!(b.peer_node_id, "edge");
    assert_eq!(a.request_id, "req-1");
    assert_eq!(a.data_token, "tok-1");
    assert_eq!(a.path, PathKind::Relay);
    assert_eq!(b.purpose, PeerPathPurpose::Data);
    assert_eq!(a.local_addr.as_deref(), Some("127.0.0.1:22"));
    // No peer has advertised a host, so no direct endpoint is offered.
    assert_eq!(a.data_endpoint, None);

    let cid = a.connection_id.clone();
    assert_eq!(hub.on_data_arrival(&cid, "bad"), DataArrival::BadToken);
    assert_eq!(hub.on_data_arrival(&cid, "tok-1"), DataArrival::Park);
    assert_eq!(hub.on_data_arrival(&cid, "bad"), DataArrival::BadToken);
    assert_eq!(hub.on_data_arrival(&cid, "tok-1"), DataArrival::Bridge);
    assert_eq!(hub.on_data_arrival(&cid, "tok-1"), DataArrival::Unknown);
    assert_eq!(hub.on_data_arrival("no-such-id", "tok-1"), DataArrival::Unknown);
}

#[test]
fn peer_path_refused_for_offline_peers() {
    let mut hub = hub_with_peers();
    let r = hub.open_peer_path("nobody", "srv", "r", PeerPathPurpose::Mgmt, false, None, None, "t".to_string(), 0);
    assert!(matches!(r, Err(HubError::SourceOffline)));
    let r = hub.open_peer_path("edge", "nobody", "r", PeerPathPurpose::Mgmt, false, None, None, "t".to_string(), 0);
    let e = err_of(r);
    assert!(matches!(e, HubError::TargetOffline));
    assert_eq!(e.message(), "target peer offline");
    assert_eq!(HubError::SourceOffline.message(), "source peer offline");
    assert_eq!(HubError::ServerNotConnected("s".to_string()).message(), "server not connected to hub: s");
}

#[test]
fn stale_pending_paths_are_dropped() {
    let mut hub = hub_with_peers();
    let (old, _) = hub
        .open_peer_path("edge", "srv", "r1", PeerPathPurpose::Mgmt, false, None, None, "t1".to_string(), 1000)
        .unwrap();
    let (young, _) = hub
        .open_peer_path("edge", "srv", "r2", PeerPathPurpose::Mgmt, false, None, None, "t2".to_string(), 5000)
        .unwrap();
    hub.cleanup_stale_pending(31000, 30000);
    assert_eq!(hub.on_data_arrival(&old.connection_id, "t1"), DataArrival::Unknown);
    assert_eq!(hub.on_data_arrival(&young.connection_id, "t2"), DataArrival::Park);
}

#[test]
fn freshness_boundary() {
    let p = PendingPath {
        connection_id: "c".to_string(),
        data_token: "t".to_string(),
        a_id: "a".to_string(),
        b_id: "b".to_string(),
        purpose: PeerPathPurpose::Mgmt,
        path: PathKind::Relay,
        created_at_ms: 1000,
        waiting: false,
    };
    assert!(is_fresh(&p, 30999, 30000));
    assert!(!is_fresh(&p, 31000, 30000));
    assert!(is_fresh(&p, 0, 30000));
}

#[test]
fn management_forward_to_connected_server() {
    let mut hub = hub_with_peers();
    let m = hub
        .mgmt_forward("srv", "POST", "/api/nodes", vec![("a".to_string(), "b".to_string())], Some(b"hello".to_vec()))
        .unwrap();
    assert!(is_uuid(&m.request_id));
    assert_eq!(m.method, "POST");
    assert_eq!(m.path, "/api/nodes");
    assert_eq!(m.headers, vec![("a".to_string(), "b".to_string())]);
    assert_eq!(m.body_b64.as_deref(), Some("aGVsbG8="));
    let m = hub.mgmt_forward("srv", "GET", "/", vec![], None).unwrap();
    assert_eq!(m.body_b64, None);
    let e = err_of(hub.mgmt_forward("edge", "GET", "/", vec![], None));
    assert!(matches!(e, HubError::ServerNotConnected(ref id) if id == "edge"));
}

#[test]
fn base64_bodies() {
    assert_eq!(request_body_b64(Some(b"hi".to_vec())).as_deref(), Some("aGk="));
    assert_eq!(request_body_b64(Some(Vec::new())).as_deref(), Some(""));
    assert_eq!(request_body_b64(None), None);
    assert_eq!(decode_hub_body(Some("aGVsbG8=".to_string())), b"hello".to_vec());
    assert_eq!(decode_hub_body(Some("***".to_string())), Vec::<u8>::new());
    assert_eq!(decode_hub_body(None), Vec::<u8>::new());
    assert_eq!(decode_forward_body(None), Ok(None));
    assert_eq!(decode_forward_body(Some("aGk=".to_string())), Ok(Some(b"hi".to_vec())));
    let e = err_of(decode_forward_body(Some("not base64!".to_string())));
    assert!(e.starts_with("Invalid symbol 32"));
    assert_eq!(request_body_b64(Some(b"any carnal pleas".to_vec())).as_deref(), Some("YW55IGNhcm5hbCBwbGVhcw=="));
    assert_eq!(request_body_b64(Some(vec![0xfb, 0xff])).as_deref(), Some("+/8="));
}

#[test]
fn base64_round_trip() {
    let bytes: Vec<u8> = (0..=255u8).collect();
    let text = request_body_b64(Some(bytes.clone())).unwrap();
    assert_eq!(decode_hub_body(Some(text.clone())), bytes);
    assert_eq!(decode_forward_body(Some(text)), Ok(Some(bytes)));
}

#[test]
fn forwarded_call_waits_for_one_reply() {
    let mut hub = hub_with_peers();
    let m = hub.mgmt_forward("srv", "GET", "/api/health", vec![], None).unwrap();
    let other = hub.mgmt_forward("srv", "GET", "/api/nodes", vec![], None).unwrap();
    assert!(hub.complete_mgmt(&m.request_id));
    assert!(!hub.complete_mgmt(&m.request_id));
    assert!(hub.complete_mgmt(&other.request_id));
    assert!(!hub.complete_mgmt("no-such-request"));
}

#[test]
fn abandoned_or_refused_call_gets_no_reply() {
    let mut hub = hub_with_peers();
    let m = hub.mgmt_forward("srv", "GET", "/", vec![], None).unwrap();
    hub.abandon_mgmt(&m.request_id);
    assert!(!hub.complete_mgmt(&m.request_id));
    assert!(hub.mgmt_forward("nobody", "GET", "/", vec![], None).is_err());
}
