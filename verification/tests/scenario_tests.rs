use docker_network_warp::classifier::{ContainerType, DefaultContainerClassifier};
use docker_network_warp::container::{ContainerInfo, ContainerState, NetworkInfo};
use docker_network_warp::error::{NetworkError, RouteError};
use docker_network_warp::events::{plan_routes_for_target, TargetSetupError};
use docker_network_warp::install::{InstallPlan, RouteAction};
use docker_network_warp::ip::{IpAddress, Ipv4Address};
use docker_network_warp::routing::{IpNetwork, RouteEntry};
use docker_network_warp::rules::RoutingRuleCalculator;

fn network(name: &str, a: u8, b: u8, c: u8, d: u8) -> NetworkInfo {
    NetworkInfo {
        name: name.to_string(),
        ip_address: IpAddress::v4(a, b, c, d),
        gateway: None,
        subnet: IpNetwork::new_v4(Ipv4Address::new(a, b, c, 0), 24),
    }
}

fn container(
    id: &str,
    name: &str,
    labels: Vec<(String, String)>,
    networks: Vec<NetworkInfo>,
) -> ContainerInfo {
    ContainerInfo {
        id: id.to_string(),
        name: name.to_string(),
        labels,
        networks,
        state: ContainerState::Running,
        pid: Some(42),
    }
}

fn classifier() -> DefaultContainerClassifier {
    DefaultContainerClassifier::with_simple_pattern(
        "warp-*".to_string(),
        "warp.target".to_string(),
        "warp.network".to_string(),
    )
}

fn classify_target(
    k: &DefaultContainerClassifier,
    c: &ContainerInfo,
) -> docker_network_warp::classifier::TargetContainerInfo {
    match k.classify_container(c) {
        ContainerType::TargetContainer(t) => t,
        other => panic!("expected a target classification, got {:?}", other),
    }
}

#[test]
fn scenario_prefix_wildcard_single_network() {
    // Pattern warp-*, one rule 10.0.0.0/8. warp-1 on bridge at 172.17.0.5;
    // app labeled warp.target=warp-1 on bridge at 172.17.0.9. The start event
    // yields one route {10.0.0.0/8 via 172.17.0.5, metric 100}; after the
    // stop event the ledger is empty again.
    let k = classifier();
    let warp = container("warp-1-id", "warp-1", vec![], vec![network("bridge", 172, 17, 0, 5)]);
    let app = container(
        "app-id",
        "app",
        vec![("warp.target".to_string(), "warp-1".to_string())],
        vec![network("bridge", 172, 17, 0, 9)],
    );
    let target = classify_target(&k, &app);
    let mut calc = RoutingRuleCalculator::new();
    let candidates = vec![warp.clone(), app.clone()];
    let rules = vec!["10.0.0.0/8".to_string()];

    let routes = plan_routes_for_target(&k, &calc, &target, &candidates, &rules, None).unwrap();
    assert_eq!(routes.len(), 1);
    assert_eq!(
        routes[0].destination,
        IpNetwork::V4 {
            addr: Ipv4Address::new(10, 0, 0, 0),
            prefix: 8
        }
    );
    assert_eq!(routes[0].gateway, IpAddress::v4(172, 17, 0, 5));
    assert_eq!(routes[0].metric, Some(100));

    // Install bookkeeping: start records the routes under the target's id.
    calc.track_container_routes(app.id.clone(), routes.clone());
    let recorded = calc.get_container_routes_for_cleanup("app-id");
    assert_eq!(recorded, routes);

    // Stop: the ledger hands the routes back once and forgets the entry.
    let removed = calc.remove_container_routes("app-id").unwrap();
    assert_eq!(removed, routes);
    assert!(calc.remove_container_routes("app-id").is_none());
    assert_eq!(calc.get_container_routes_for_cleanup("app-id").len(), 0);
    assert!(calc.get_tracked_containers().is_empty());
}

#[test]
fn scenario_multi_network_warp_with_preference() {
    // warp-1 on bridge (172.17.0.5) and vpn (10.8.0.2), labeled
    // warp.network=vpn: the gateway is the vpn address.
    let k = classifier();
    let warp = container(
        "warp-1-id",
        "warp-1",
        vec![("warp.network".to_string(), "vpn".to_string())],
        vec![network("bridge", 172, 17, 0, 5), network("vpn", 10, 8, 0, 2)],
    );
    let app = container(
        "app-id",
        "app",
        vec![("warp.target".to_string(), "warp-1".to_string())],
        vec![network("bridge", 172, 17, 0, 9)],
    );
    let target = classify_target(&k, &app);
    let calc = RoutingRuleCalculator::new();
    let candidates = vec![warp, app];
    let rules = vec!["10.0.0.0/8".to_string()];

    let routes = plan_routes_for_target(&k, &calc, &target, &candidates, &rules, None).unwrap();
    assert_eq!(routes.len(), 1);
    assert_eq!(routes[0].gateway, IpAddress::v4(10, 8, 0, 2));
}

#[test]
fn scenario_multi_network_warp_missing_preference() {
    // The same warp without the warp.network label: the event is skipped
    // with a resolution error and nothing is installed.
    let k = classifier();
    let warp = container(
        "warp-1-id",
        "warp-1",
        vec![],
        vec![network("bridge", 172, 17, 0, 5), network("vpn", 10, 8, 0, 2)],
    );
    let app = container(
        "app-id",
        "app",
        vec![("warp.target".to_string(), "warp-1".to_string())],
        vec![network("bridge", 172, 17, 0, 9)],
    );
    let target = classify_target(&k, &app);
    let calc = RoutingRuleCalculator::new();
    let candidates = vec![warp, app];
    let rules = vec!["10.0.0.0/8".to_string()];

    let result = plan_routes_for_target(&k, &calc, &target, &candidates, &rules, None);
    match result {
        Err(TargetSetupError::Resolve(NetworkError::NoPreference { container_id })) => {
            assert_eq!(container_id, "warp-1-id");
        }
        other => panic!("expected a no-preference resolve failure, got {:?}", other),
    }
    assert!(calc.get_container_routes_for_cleanup("app-id").is_empty());
}

#[test]
fn scenario_two_rules_conflict() {
    // Two route entries with one destination but different gateways: the
    // conflict check reports an error. One target references one warp, so
    // compute cannot produce this itself; the entries are fed directly.
    let calc = RoutingRuleCalculator::new();
    let dest = IpNetwork::V4 {
        addr: Ipv4Address::new(10, 0, 0, 0),
        prefix: 8,
    };
    let routes = vec![
        RouteEntry {
            destination: dest,
            gateway: IpAddress::v4(172, 17, 0, 5),
            interface: None,
            metric: Some(100),
        },
        RouteEntry {
            destination: dest,
            gateway: IpAddress::v4(10, 8, 0, 2),
            interface: None,
            metric: Some(100),
        },
    ];
    let result = calc.detect_route_conflicts(&routes);
    assert!(result.is_err());
    let err = result.unwrap_err();
    assert!(matches!(err, RouteError::RouteConflict(_)));
    assert!(err.message().contains("Route conflict detected"));
}

#[test]
fn scenario_partial_install_rollback() {
    // Three routes; the second install fails. The first route is added and
    // then removed exactly once, and the run reports failure.
    let calc = RoutingRuleCalculator::new();
    let gw = IpAddress::v4(172, 17, 0, 5);
    let cidrs = vec![
        "10.0.0.0/8".to_string(),
        "172.16.0.0/12".to_string(),
        "192.168.0.0/16".to_string(),
    ];
    let routes = calc.calculate_multiple_routes(&cidrs, gw, None).unwrap();
    assert_eq!(routes.len(), 3);

    let mut plan = InstallPlan::new(routes.clone());
    let mut added: Vec<RouteEntry> = Vec::new();
    let mut removed: Vec<RouteEntry> = Vec::new();

    // First add succeeds.
    match plan.current_action() {
        RouteAction::Add(r) => {
            assert_eq!(r, routes[0]);
            added.push(r);
            plan.note_success();
        }
        other => panic!("expected an add, got {:?}", other),
    }
    // Second add fails: the programmer is wired to reject it.
    match plan.current_action() {
        RouteAction::Add(r) => {
            assert_eq!(r, routes[1]);
            plan.note_failure();
        }
        other => panic!("expected an add, got {:?}", other),
    }
    // Rollback removes the first route.
    match plan.current_action() {
        RouteAction::Remove(r) => {
            assert_eq!(r, routes[0]);
            removed.push(r);
            plan.note_success();
        }
        other => panic!("expected a remove, got {:?}", other),
    }
    // The run is over and it failed; the ledger never saw an entry.
    match plan.current_action() {
        RouteAction::Done { succeeded } => assert!(!succeeded),
        other => panic!("expected done, got {:?}", other),
    }
    assert_eq!(added, vec![routes[0].clone()]);
    assert_eq!(removed, vec![routes[0].clone()]);
    assert!(calc.get_container_routes_for_cleanup("app-id").is_empty());
}

#[test]
fn scenario_warp_with_zero_networks() {
    // The warp name matches but the warp has no networks: the classifier
    // ignores it, and targets referencing it fail with an invalid warp.
    let k = classifier();
    let warp = container("warp-1-id", "warp-1", vec![], vec![]);
    assert!(matches!(
        k.classify_container(&warp),
        ContainerType::Ignored
    ));

    let app = container(
        "app-id",
        "app",
        vec![("warp.target".to_string(), "warp-1".to_string())],
        vec![network("bridge", 172, 17, 0, 9)],
    );
    let target = classify_target(&k, &app);
    let calc = RoutingRuleCalculator::new();
    let candidates = vec![warp, app];
    let rules = vec!["10.0.0.0/8".to_string()];

    let result = plan_routes_for_target(&k, &calc, &target, &candidates, &rules, None);
    assert!(matches!(result, Err(TargetSetupError::WarpInvalid)));
}

#[test]
fn scenario_warp_missing_and_ambiguous() {
    let k = classifier();
    let app = container(
        "app-id",
        "app",
        vec![("warp.target".to_string(), "warp-1".to_string())],
        vec![network("bridge", 172, 17, 0, 9)],
    );
    let target = classify_target(&k, &app);
    let calc = RoutingRuleCalculator::new();
    let rules = vec!["10.0.0.0/8".to_string()];

    // No container bears the warp name.
    let candidates = vec![app.clone()];
    assert!(matches!(
        plan_routes_for_target(&k, &calc, &target, &candidates, &rules, None),
        Err(TargetSetupError::WarpMissing)
    ));

    // Two containers bear the warp name.
    let w1 = container("w1", "warp-1", vec![], vec![network("bridge", 172, 17, 0, 5)]);
    let w2 = container("w2", "warp-1", vec![], vec![network("bridge", 172, 17, 0, 6)]);
    let candidates = vec![w1, w2, app];
    assert!(matches!(
        plan_routes_for_target(&k, &calc, &target, &candidates, &rules, None),
        Err(TargetSetupError::AmbiguousWarp)
    ));
}

#[test]
fn scenario_full_install_success() {
    // All adds succeed: the plan walks the routes in order and reports
    // success with nothing removed.
    let calc = RoutingRuleCalculator::new();
    let gw = IpAddress::v4(172, 17, 0, 5);
    let cidrs = vec!["10.0.0.0/8".to_string(), "172.16.0.0/12".to_string()];
    let routes = calc.calculate_multiple_routes(&cidrs, gw, None).unwrap();

    let mut plan = InstallPlan::new(routes.clone());
    let mut added: Vec<RouteEntry> = Vec::new();
    loop {
        match plan.current_action() {
            RouteAction::Add(r) => {
                added.push(r);
                plan.note_success();
            }
            RouteAction::Remove(_) => panic!("no removal expected on success"),
            RouteAction::Done { succeeded } => {
                assert!(succeeded);
                break;
            }
        }
    }
    assert_eq!(added, routes);
}
