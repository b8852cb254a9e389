use docker_network_warp::events::{process_event_decision, EventDecision, RuntimeEvent};
use docker_network_warp::install::reverse_routes;
use docker_network_warp::ip::{IpAddress, Ipv4Address};
use docker_network_warp::routing::{IpNetwork, RouteEntry};

fn event(typ: Option<&str>, action: Option<&str>, actor_id: Option<&str>) -> RuntimeEvent {
    RuntimeEvent {
        typ: typ.map(|s| s.to_string()),
        action: action.map(|s| s.to_string()),
        actor_id: actor_id.map(|s| s.to_string()),
    }
}

#[test]
fn test_container_start_event_decision() {
    let e = event(Some("container"), Some("start"), Some("abc123"));
    assert_eq!(
        process_event_decision(&e),
        EventDecision::Start("abc123".to_string())
    );
}

#[test]
fn test_container_stop_event_decision() {
    let e = event(Some("container"), Some("stop"), Some("abc123"));
    assert_eq!(
        process_event_decision(&e),
        EventDecision::Stop("abc123".to_string())
    );
}

#[test]
fn test_non_container_event_skipped() {
    let e = event(Some("network"), Some("start"), Some("abc123"));
    assert_eq!(process_event_decision(&e), EventDecision::Skip);
}

#[test]
fn test_other_action_skipped() {
    let e = event(Some("container"), Some("die"), Some("abc123"));
    assert_eq!(process_event_decision(&e), EventDecision::Skip);
}

#[test]
fn test_event_missing_actor_skipped() {
    let e = event(Some("container"), Some("start"), None);
    assert_eq!(process_event_decision(&e), EventDecision::Skip);
}

#[test]
fn test_event_missing_type_still_handled() {
    // The subscription is filtered at the source, so a typeless event is
    // taken as a container event.
    let e = event(None, Some("start"), Some("abc123"));
    assert_eq!(
        process_event_decision(&e),
        EventDecision::Start("abc123".to_string())
    );
}

#[test]
fn test_event_missing_action_skipped() {
    let e = event(Some("container"), None, Some("abc123"));
    assert_eq!(process_event_decision(&e), EventDecision::Skip);
}

#[test]
fn test_reverse_routes_order() {
    let mk = |p: u8| RouteEntry {
        destination: IpNetwork::V4 {
            addr: Ipv4Address::new(10, p, 0, 0),
            prefix: 16,
        },
        gateway: IpAddress::v4(172, 17, 0, 5),
        interface: None,
        metric: Some(100),
    };
    let routes = vec![mk(1), mk(2), mk(3)];
    let reversed = reverse_routes(&routes);
    assert_eq!(reversed, vec![mk(3), mk(2), mk(1)]);
}

#[test]
fn test_process_event_with_missing_data() {
    // An event with no type and no actor is handled gracefully: skipped.
    let e = RuntimeEvent {
        typ: None,
        action: Some("start".to_string()),
        actor_id: None,
    };
    assert_eq!(process_event_decision(&e), EventDecision::Skip);
}
