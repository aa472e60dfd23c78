use nexusgate::hub::HubState;
use nexusgate::port_plan::{can_issue_ports, plan_ports, PortBinding};
use nexusgate::server_state::{plan_listeners, ListenerKey};

fn binding(route: &str, visitor: u16, data: Option<u16>, enabled: bool) -> PortBinding {
    PortBinding {
        route_id: route.to_string(),
        node_id: "edge-1".to_string(),
        visitor_port: visitor,
        data_port: data,
        protocol: "tcp".to_string(),
        local_addr: "127.0.0.1:22".to_string(),
        enabled,
    }
}

#[test]
fn plan_gives_smallest_free_ports_in_order() {
    let ms = vec![
        binding("a", 20000, None, true),
        binding("b", 20001, Some(30000), true),
        binding("c", 30001, None, true),
    ];
    assert!(can_issue_ports(30000, &ms));
    let out = plan_ports(30000, ms);
    assert_eq!(out.len(), 3);
    // 30000 is taken by b's data port and 30001 by c's visitor port.
    assert_eq!(out[0].data_port, Some(30002));
    assert_eq!(out[1].data_port, Some(30000));
    assert_eq!(out[2].data_port, Some(30003));
    assert_eq!(out[0].route_id, "a");
    assert_eq!(out[2].visitor_port, 30001);
}

#[test]
fn plan_leaves_disabled_mappings_alone() {
    let ms = vec![binding("a", 20000, None, false), binding("b", 20001, None, true)];
    let out = plan_ports(40000, ms);
    assert_eq!(out[0].data_port, None);
    assert_eq!(out[1].data_port, Some(40000));
}

#[test]
fn plan_with_base_zero_starts_at_one() {
    let ms = vec![binding("a", 1, None, true)];
    assert!(can_issue_ports(0, &ms));
    let out = plan_ports(0, ms);
    assert_eq!(out[0].data_port, Some(2));
}

#[test]
fn plan_when_ports_run_out() {
    let ms = vec![binding("a", 65535, None, true)];
    assert!(!can_issue_ports(65535, &ms));
    let out = plan_ports(65535, vec![binding("a", 65535, None, true)]);
    assert_eq!(out[0].data_port, None);
    let ms2 = vec![binding("a", 1000, None, true), binding("b", 1001, None, true)];
    assert!(!can_issue_ports(65535, &ms2));
    let ms3 = vec![binding("a", 1000, None, true)];
    assert!(can_issue_ports(65535, &ms3));
    let out = plan_ports(65535, ms3);
    assert_eq!(out[0].data_port, Some(65535));
}

#[test]
fn hub_issues_ports_from_its_base() {
    let hub = HubState::new("tok".to_string(), 50000);
    assert_eq!(hub.port_base(), 50000);
    let ms = vec![binding("a", 50000, None, true), binding("b", 8080, Some(50001), true)];
    assert!(can_issue_ports(hub.port_base(), &ms));
    let out = hub.issue_ports(ms);
    assert_eq!(out[0].data_port, Some(50002));
    assert_eq!(out[1].data_port, Some(50001));
}

#[test]
fn listeners_stop_unneeded_and_start_missing() {
    let bs = vec![
        binding("a", 9000, Some(9100), true),
        binding("b", 9001, None, true),
        binding("c", 9002, Some(9102), false),
        binding("d", 9000, None, true),
    ];
    let running = vec![ListenerKey::Visitor(9000), ListenerKey::Visitor(9002), ListenerKey::Data(9999)];
    let (stop, start) = plan_listeners(&bs, &running);
    assert_eq!(stop.len(), 2);
    assert!(stop.contains(&ListenerKey::Visitor(9002)));
    assert!(stop.contains(&ListenerKey::Data(9999)));
    let keys: Vec<ListenerKey> = start.iter().map(|s| s.key).collect();
    assert_eq!(keys.len(), 2);
    assert!(keys.contains(&ListenerKey::Data(9100)));
    assert!(keys.contains(&ListenerKey::Visitor(9001)));
    let route_of_data = start.iter().find(|s| s.key == ListenerKey::Data(9100)).unwrap();
    assert_eq!(route_of_data.route_id, "a");
    let route_of_visitor = start.iter().find(|s| s.key == ListenerKey::Visitor(9001)).unwrap();
    assert_eq!(route_of_visitor.route_id, "b");
}

#[test]
fn listener_key_text() {
    assert_eq!(ListenerKey::Visitor(8080).text(), "v:8080");
    assert_eq!(ListenerKey::Data(0).text(), "d:0");
}

#[test]
fn replanning_changes_nothing() {
    let ms = vec![binding("a", 30000, None, true), binding("b", 30002, None, true), binding("c", 1, None, false)];
    let once = plan_ports(30000, ms);
    let ports: Vec<Option<u16>> = once.iter().map(|m| m.data_port).collect();
    assert_eq!(ports, vec![Some(30001), Some(30003), None]);
    assert!(can_issue_ports(40000, &once));
    let twice = plan_ports(40000, once);
    let again: Vec<Option<u16>> = twice.iter().map(|m| m.data_port).collect();
    assert_eq!(again, ports);
}

#[test]
fn planned_ports_never_clash() {
    let ms = vec![
        binding("a", 5000, None, true),
        binding("b", 5001, Some(5002), true),
        binding("c", 5003, None, true),
        binding("d", 5005, None, true),
    ];
    let out = plan_ports(5000, ms);
    let visitors: Vec<u16> = out.iter().map(|m| m.visitor_port).collect();
    let handed: Vec<u16> = out.iter().filter_map(|m| m.data_port).collect();
    assert_eq!(handed, vec![5004, 5002, 5006, 5007]);
    for (i, p) in handed.iter().enumerate() {
        assert!(!visitors.contains(p));
        assert!(!handed[i + 1..].contains(p));
    }
}

#[test]
fn hub_plan_when_ports_run_out() {
    let hub = HubState::new("tok".to_string(), 65534);
    let ms = vec![
        binding("a", 1000, None, true),
        binding("b", 1001, None, true),
        binding("c", 1002, None, true),
    ];
    assert!(!can_issue_ports(hub.port_base(), &ms));
    let plan = hub.issue_ports(ms);
    let ports: Vec<Option<u16>> = plan.iter().map(|m| m.data_port).collect();
    assert_eq!(ports, vec![Some(65534), Some(65535), None]);
    assert_eq!(plan[2].route_id, "c");

    let full = HubState::new("tok".to_string(), 65535);
    let plan = full.issue_ports(vec![binding("a", 65535, None, true)]);
    assert_eq!(plan[0].data_port, None);
}
