use docker_network_warp::container::{
    state_from_code, state_from_flags, strip_name_slashes, ContainerInfo, ContainerState,
    NetworkInfo,
};
use docker_network_warp::error::{
    map_add_route_error, map_list_route_error, map_remove_route_error, NetworkError, RouteError,
};
use docker_network_warp::ip::{IpAddress, Ipv4Address};
use docker_network_warp::network::{
    analyze_container_networks, get_container_pid, resolve_container_ip,
    resolve_container_ip_with_preference, select_network_by_preference, NetworkDiscovery,
};
use docker_network_warp::routing::IpNetwork;

fn network(name: &str, a: u8, b: u8, c: u8, d: u8, prefix: u8) -> NetworkInfo {
    NetworkInfo {
        name: name.to_string(),
        ip_address: IpAddress::v4(a, b, c, d),
        gateway: Some(IpAddress::v4(a, b, c, 1)),
        subnet: IpNetwork::new_v4(Ipv4Address::new(a, b, c, 0), prefix),
    }
}

fn create_test_container(id: &str, name: &str, state: ContainerState) -> ContainerInfo {
    ContainerInfo {
        id: id.to_string(),
        name: name.to_string(),
        labels: Vec::new(),
        networks: vec![network("bridge", 192, 168, 1, 10, 24)],
        state,
        pid: Some(30),
    }
}

#[test]
fn test_container_state_equality() {
    assert_eq!(ContainerState::Running, ContainerState::Running);
    assert_ne!(ContainerState::Running, ContainerState::Stopped);
}

#[test]
fn test_container_info_creation() {
    let labels = vec![("app".to_string(), "test".to_string())];

    let container = ContainerInfo {
        id: "test-id".to_string(),
        name: "test-container".to_string(),
        labels,
        networks: vec![],
        state: ContainerState::Running,
        pid: Some(30),
    };

    assert_eq!(container.id, "test-id");
    assert_eq!(container.name, "test-container");
    assert_eq!(container.state, ContainerState::Running);
    assert_eq!(
        container.get_label("app").map(|v| v.clone()),
        Some("test".to_string())
    );
    assert_eq!(container.pid, Some(30));
}

#[test]
fn test_network_info_creation() {
    let ip = IpAddress::v4(192, 168, 1, 10);
    let gateway = IpAddress::v4(192, 168, 1, 1);
    let subnet = IpNetwork::new_v4(Ipv4Address::new(192, 168, 1, 0), 24);

    let net = NetworkInfo {
        name: "bridge".to_string(),
        ip_address: ip,
        gateway: Some(gateway),
        subnet,
    };

    assert_eq!(net.name, "bridge");
    assert_eq!(net.ip_address, ip);
    assert_eq!(net.gateway, Some(gateway));
    assert_eq!(net.subnet.prefix(), 24);
}

#[test]
fn test_container_start_event_creation() {
    let container = ContainerInfo {
        id: "test-id".to_string(),
        name: "test-container".to_string(),
        labels: Vec::new(),
        networks: vec![],
        state: ContainerState::Starting,
        pid: Some(30),
    };

    let event = docker_network_warp::container::ContainerStartEvent {
        container: container.clone(),
    };

    assert_eq!(event.container.id, container.id);
    assert_eq!(event.container.state, ContainerState::Starting);
}

#[test]
fn test_resolve_container_ip_default_network() {
    let networks = vec![network("bridge", 192, 168, 1, 10, 24)];
    let ip = resolve_container_ip(&networks, None, "test-123").unwrap();
    assert_eq!(ip, IpAddress::v4(192, 168, 1, 10));
}

#[test]
fn test_resolve_container_ip_specific_network() {
    let networks = vec![
        network("bridge", 192, 168, 1, 10, 24),
        network("custom", 10, 0, 0, 5, 16),
    ];

    let ip = resolve_container_ip(&networks, Some("custom"), "test-123").unwrap();
    assert_eq!(ip, IpAddress::v4(10, 0, 0, 5));

    let ip = resolve_container_ip(&networks, Some("bridge"), "test-123").unwrap();
    assert_eq!(ip, IpAddress::v4(192, 168, 1, 10));
}

#[test]
fn test_resolve_container_ip_network_not_found() {
    let networks = vec![network("bridge", 192, 168, 1, 10, 24)];
    let result = resolve_container_ip(&networks, Some("nonexistent"), "test-123");

    assert!(result.is_err());
    match result.unwrap_err() {
        NetworkError::NetworkNotFound { container_id } => {
            assert_eq!(container_id, "test-123");
        }
        _ => panic!("Expected NetworkNotFound error"),
    }
}

#[test]
fn test_resolve_container_ip_no_networks() {
    let networks: Vec<NetworkInfo> = Vec::new();
    let result = resolve_container_ip(&networks, None, "test-123");

    assert!(result.is_err());
    match result.unwrap_err() {
        NetworkError::NetworkNotFound { container_id } => {
            assert_eq!(container_id, "test-123");
        }
        _ => panic!("Expected NetworkNotFound error"),
    }
}

#[test]
fn test_resolve_container_ip_multiple_no_name() {
    let networks = vec![
        network("bridge", 192, 168, 1, 10, 24),
        network("custom", 10, 0, 0, 5, 16),
    ];
    let result = resolve_container_ip(&networks, None, "test-123");
    assert!(matches!(
        result,
        Err(NetworkError::MultipleNetworksExist { .. })
    ));
}

#[test]
fn test_resolve_container_ip_with_preference_single_network() {
    let container = create_test_container("test-123", "test-container", ContainerState::Running);
    let ip = resolve_container_ip_with_preference(&container, "network.warp.network").unwrap();
    assert_eq!(ip, IpAddress::v4(192, 168, 1, 10));
}

#[test]
fn test_resolve_container_ip_with_preference_multiple_networks_with_label() {
    let mut container =
        create_test_container("test-123", "test-container", ContainerState::Running);
    container.networks.push(network("custom", 10, 0, 0, 5, 16));
    container
        .labels
        .push(("network.warp.network".to_string(), "custom".to_string()));

    let ip = resolve_container_ip_with_preference(&container, "network.warp.network").unwrap();
    assert_eq!(ip, IpAddress::v4(10, 0, 0, 5));
}

#[test]
fn test_resolve_container_ip_with_preference_multiple_networks_no_label() {
    let mut container =
        create_test_container("test-123", "test-container", ContainerState::Running);
    container.networks.push(network("custom", 10, 0, 0, 5, 16));

    let result = resolve_container_ip_with_preference(&container, "network.warp.network");
    assert!(result.is_err());
    match result.unwrap_err() {
        NetworkError::NoPreference { container_id } => {
            assert_eq!(container_id, "test-123");
        }
        _ => panic!("Expected NoPreference error"),
    }
}

#[test]
fn test_resolve_container_ip_with_preference_invalid_network() {
    let mut container =
        create_test_container("test-123", "test-container", ContainerState::Running);
    container.networks.push(network("custom", 10, 0, 0, 5, 16));
    container.labels.push((
        "network.warp.network".to_string(),
        "nonexistent".to_string(),
    ));

    let result = resolve_container_ip_with_preference(&container, "network.warp.network");
    assert!(result.is_err());
    match result.unwrap_err() {
        NetworkError::PreferredNetworkMissing { container_id } => {
            assert_eq!(container_id, "test-123");
        }
        _ => panic!("Expected PreferredNetworkMissing error"),
    }
}

#[test]
fn test_select_network_by_preference_single_network() {
    let networks = vec![network("bridge", 192, 168, 1, 10, 24)];
    let selected = select_network_by_preference(&networks, None).unwrap();
    assert_eq!(selected.name, "bridge");
    assert_eq!(selected.ip_address, IpAddress::v4(192, 168, 1, 10));
}

#[test]
fn test_select_network_by_preference_multiple_networks_with_preference() {
    let networks = vec![
        network("bridge", 192, 168, 1, 10, 24),
        network("custom", 10, 0, 0, 5, 16),
    ];

    let selected = select_network_by_preference(&networks, Some("custom")).unwrap();
    assert_eq!(selected.name, "custom");
    assert_eq!(selected.ip_address, IpAddress::v4(10, 0, 0, 5));
}

#[test]
fn test_select_network_by_preference_multiple_networks_no_preference() {
    let networks = vec![
        network("bridge", 192, 168, 1, 10, 24),
        network("custom", 10, 0, 0, 5, 16),
    ];

    let result = select_network_by_preference(&networks, None);
    assert!(result.is_err());
    match result.unwrap_err() {
        NetworkError::OperationFailed(msg) => {
            assert!(msg.contains("Multiple networks available but no preference specified"));
        }
        _ => panic!("Expected OperationFailed error"),
    }
}

#[test]
fn test_select_network_by_preference_invalid_preference() {
    let networks = vec![network("bridge", 192, 168, 1, 10, 24)];
    let result = select_network_by_preference(&networks, Some("nonexistent"));
    assert!(result.is_err());
    match result.unwrap_err() {
        NetworkError::OperationFailed(msg) => {
            assert!(msg.contains("Preferred network not found"));
        }
        _ => panic!("Expected OperationFailed error"),
    }
}

#[test]
fn test_analyze_container_networks() {
    let mut container =
        create_test_container("test-123", "test-container", ContainerState::Running);
    container.networks.push(network("custom", 10, 0, 0, 5, 16));
    container.labels.push(("app".to_string(), "test".to_string()));
    container
        .labels
        .push(("network.warp.network".to_string(), "custom".to_string()));

    let analysis = analyze_container_networks(&container);

    assert_eq!(analysis.container_id, "test-123");
    assert_eq!(analysis.container_name, "test-container");
    assert_eq!(analysis.networks.len(), 2);
    assert!(analysis.has_multiple_networks);
    assert_eq!(analysis.network_names, vec!["bridge", "custom"]);
    assert!(analysis
        .labels
        .contains(&("app".to_string(), "test".to_string())));
    assert!(analysis
        .labels
        .contains(&("network.warp.network".to_string(), "custom".to_string())));
}

#[test]
fn test_analyze_container_networks_single_network() {
    let container = create_test_container("test-123", "test-container", ContainerState::Running);
    let analysis = analyze_container_networks(&container);

    assert_eq!(analysis.container_id, "test-123");
    assert_eq!(analysis.container_name, "test-container");
    assert_eq!(analysis.networks.len(), 1);
    assert!(!analysis.has_multiple_networks);
    assert_eq!(analysis.network_names, vec!["bridge"]);
}

#[test]
fn test_get_container_pid_success() {
    let container = create_test_container("test-123", "test-container", ContainerState::Running);
    let pid = get_container_pid(&container).unwrap();
    assert_eq!(pid, 30);
}

#[test]
fn test_get_container_pid_not_running() {
    let container = create_test_container("test-123", "test-container", ContainerState::Stopped);
    let result = get_container_pid(&container);

    assert!(result.is_err());
    match result.unwrap_err() {
        NetworkError::OperationFailed(msg) => {
            assert!(msg.contains("not running"));
        }
        _ => panic!("Expected OperationFailed error"),
    }
}

#[test]
fn test_get_container_pid_no_pid() {
    let mut container =
        create_test_container("test-123", "test-container", ContainerState::Running);
    container.pid = None;
    let result = get_container_pid(&container);

    assert!(result.is_err());
    match result.unwrap_err() {
        NetworkError::OperationFailed(msg) => {
            assert!(msg.contains("no PID information"));
        }
        _ => panic!("Expected OperationFailed error"),
    }
}

#[test]
fn test_get_container_pid_negative() {
    let mut container =
        create_test_container("test-123", "test-container", ContainerState::Running);
    container.pid = Some(-1);
    assert!(get_container_pid(&container).is_err());
}

#[test]
fn test_network_discovery_select_network() {
    let discovery = NetworkDiscovery::new();
    let networks = vec![
        network("bridge", 192, 168, 1, 10, 24),
        network("custom", 10, 0, 0, 5, 16),
    ];
    let selected = discovery.select_network(&networks, Some("custom")).unwrap();
    assert_eq!(selected.name, "custom");
    let first = discovery.select_network(&networks, None).unwrap();
    assert_eq!(first.name, "bridge");
    assert!(discovery
        .select_network(&networks, Some("missing"))
        .is_none());
    let empty: Vec<NetworkInfo> = Vec::new();
    assert!(discovery.select_network(&empty, None).is_none());
}

#[test]
fn test_resolver_returns_member_of_networks() {
    // With at least one network and a correctly set preference label, the
    // resolver picks one of the container's own attachment addresses.
    let mut container = create_test_container("test-123", "app", ContainerState::Running);
    container.networks.push(network("vpn", 10, 8, 0, 2, 16));
    container
        .labels
        .push(("pref".to_string(), "vpn".to_string()));
    let ip = resolve_container_ip_with_preference(&container, "pref").unwrap();
    assert!(container.networks.iter().any(|n| n.ip_address == ip));
}

#[test]
fn test_route_error_mapping() {
    // Privilege and namespace failures keep their own kinds.
    let e = map_add_route_error(NetworkError::InsufficientPrivileges);
    assert_eq!(e, RouteError::InsufficientPrivileges);

    let e = map_remove_route_error(NetworkError::NamespaceAccess("stale".to_string()));
    assert_eq!(e, RouteError::NamespaceAccess("stale".to_string()));

    // Plain operation failures become the operation's own kind.
    let e = map_add_route_error(NetworkError::OperationFailed("boom".to_string()));
    assert_eq!(e, RouteError::AddRoute("boom".to_string()));
    let e = map_remove_route_error(NetworkError::OperationFailed("boom".to_string()));
    assert_eq!(e, RouteError::RemoveRoute("boom".to_string()));
    let e = map_list_route_error(NetworkError::OperationFailed("boom".to_string()));
    assert_eq!(e, RouteError::InvalidRoute("boom".to_string()));
}

#[test]
fn test_resolver_error_messages() {
    let e = NetworkError::NoPreference {
        container_id: "c1".to_string(),
    };
    assert!(e
        .message()
        .contains("multiple networks but no network preference label"));
    let e = NetworkError::PreferredNetworkMissing {
        container_id: "c1".to_string(),
    };
    assert!(e.message().contains("Preferred network not found"));
}

#[test]
fn test_state_normalization() {
    assert_eq!(state_from_code("running"), ContainerState::Running);
    assert_eq!(state_from_code("created"), ContainerState::Starting);
    assert_eq!(state_from_code("restarting"), ContainerState::Starting);
    assert_eq!(state_from_code("paused"), ContainerState::Stopped);
    assert_eq!(state_from_code("exited"), ContainerState::Stopped);
    assert_eq!(state_from_code("dead"), ContainerState::Stopped);
    assert_eq!(state_from_flags(true, false), ContainerState::Running);
    assert_eq!(state_from_flags(false, true), ContainerState::Starting);
    assert_eq!(state_from_flags(false, false), ContainerState::Stopped);
}

#[test]
fn test_strip_name_slashes() {
    assert_eq!(strip_name_slashes("/app"), "app");
    assert_eq!(strip_name_slashes("//warp-1"), "warp-1");
    assert_eq!(strip_name_slashes("plain"), "plain");
    assert_eq!(strip_name_slashes(""), "");
}
