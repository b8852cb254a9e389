use docker_network_warp::config::{
    AppConfig, CliArgs, ConfigurationManager, DefaultConfigurationManager, DockerConfig,
    LoggingConfig, RoutingRule, TomlConfig, TomlRoutingRule,
};
use docker_network_warp::config::{parse_port_range, parse_routing_rules_from_env};
use docker_network_warp::error::ConfigError;

#[test]
fn test_app_config_validation_valid() {
    let config = AppConfig::default();
    assert!(config.validate().is_ok());
}

#[test]
fn test_app_config_validation_empty_pattern() {
    let mut config = AppConfig::default();
    config.warp_container_pattern = "".to_string();
    assert!(matches!(
        config.validate(),
        Err(ConfigError::ValidationError(_))
    ));
}

#[test]
fn test_app_config_validation_invalid_log_level() {
    let mut config = AppConfig::default();
    config.log_level = "invalid".to_string();
    assert!(matches!(
        config.validate(),
        Err(ConfigError::ValidationError(_))
    ));
}

#[test]
fn test_app_config_validation_invalid_docker_method() {
    let mut config = AppConfig::default();
    config.docker_connection_method = "invalid".to_string();
    assert!(matches!(
        config.validate(),
        Err(ConfigError::ValidationError(_))
    ));
}

#[test]
fn test_app_config_validation_invalid_cidr() {
    let mut config = AppConfig::default();
    config.routing_rules = vec![RoutingRule {
        destination: "10.0.0.0".to_string(), // Missing /mask
        protocol: None,
        port_range: None,
    }];
    assert!(matches!(
        config.validate(),
        Err(ConfigError::ValidationError(_))
    ));
}

#[test]
fn test_app_config_validation_invalid_port_range() {
    let mut config = AppConfig::default();
    config.routing_rules = vec![RoutingRule {
        destination: "10.0.0.0/8".to_string(),
        protocol: Some("tcp".to_string()),
        port_range: Some((443, 80)), // start > end
    }];
    assert!(matches!(
        config.validate(),
        Err(ConfigError::ValidationError(_))
    ));
}

#[test]
fn test_default_configuration_manager() {
    let manager = DefaultConfigurationManager::default().unwrap();
    let config = manager.load_configuration().unwrap();

    assert_eq!(config.warp_container_pattern, "warp-*");
    assert_eq!(config.target_container_label, "network.warp.target");
    assert_eq!(config.network_preference_label, "network.warp.network");
    assert_eq!(config.log_level, "info");
    assert_eq!(config.docker_socket, "/var/run/docker.sock");
    assert_eq!(config.docker_connection_method, "socket");
}

#[test]
fn test_apply_cli_to_config() {
    let args = CliArgs {
        config: Some("/test/config.toml".to_string()),
        log_level: Some("trace".to_string()),
        docker_connection_method: Some("ssl".to_string()),
        docker_socket: Some("/test/docker.sock".to_string()),
        warp_container_pattern: Some("test-*".to_string()),
        target_container_label: Some("test.label".to_string()),
        network_preference_label: Some("test.network".to_string()),
        routing_rules: Some("172.16.0.0/12:udp:53-53".to_string()),
        validate_config: false,
        print_default_config: false,
    };

    let base_config = AppConfig::default();
    let config = args.apply_to_config(base_config).unwrap();

    assert_eq!(config.docker_connection_method, "ssl");
    assert_eq!(config.log_level, "trace");
    assert_eq!(config.docker_socket, "/test/docker.sock");
    assert_eq!(config.warp_container_pattern, "test-*");
    assert_eq!(config.target_container_label, "test.label");
    assert_eq!(config.network_preference_label, "test.network");

    assert_eq!(config.routing_rules.len(), 1);
    assert_eq!(config.routing_rules[0].destination, "172.16.0.0/12");
    assert_eq!(config.routing_rules[0].protocol, Some("udp".to_string()));
    assert_eq!(config.routing_rules[0].port_range, Some((53, 53)));
}

#[test]
fn test_apply_cli_to_config_no_overrides() {
    let args = CliArgs {
        config: None,
        log_level: None,
        docker_connection_method: None,
        docker_socket: None,
        warp_container_pattern: None,
        target_container_label: None,
        network_preference_label: None,
        routing_rules: None,
        validate_config: false,
        print_default_config: false,
    };

    let base_config = AppConfig::default();
    let original_config = base_config.clone();
    let config = args.apply_to_config(base_config).unwrap();

    // Should be unchanged
    assert_eq!(
        config.docker_connection_method,
        original_config.docker_connection_method
    );
    assert_eq!(config.log_level, original_config.log_level);
    assert_eq!(config.docker_socket, original_config.docker_socket);
    assert_eq!(
        config.warp_container_pattern,
        original_config.warp_container_pattern
    );
    assert_eq!(
        config.target_container_label,
        original_config.target_container_label
    );
    assert_eq!(
        config.network_preference_label,
        original_config.network_preference_label
    );
    assert_eq!(
        config.routing_rules.len(),
        original_config.routing_rules.len()
    );
}

#[test]
fn test_parse_routing_rules_from_env() {
    let rules_str = "10.0.0.0/8:tcp:80-443,192.168.0.0/16::53-53,172.16.0.0/12";
    let rules = parse_routing_rules_from_env(rules_str).unwrap();

    assert_eq!(rules.len(), 3);

    assert_eq!(rules[0].destination, "10.0.0.0/8");
    assert_eq!(rules[0].protocol, Some("tcp".to_string()));
    assert_eq!(rules[0].port_range, Some((80, 443)));

    assert_eq!(rules[1].destination, "192.168.0.0/16");
    assert_eq!(rules[1].protocol, None);
    assert_eq!(rules[1].port_range, Some((53, 53)));

    assert_eq!(rules[2].destination, "172.16.0.0/12");
    assert_eq!(rules[2].protocol, None);
    assert_eq!(rules[2].port_range, None);
}

#[test]
fn test_parse_routing_rules_empty() {
    let rules = parse_routing_rules_from_env("").unwrap();
    assert_eq!(rules.len(), 0);

    let rules = parse_routing_rules_from_env("   ").unwrap();
    assert_eq!(rules.len(), 0);
}

#[test]
fn test_parse_routing_rules_invalid_cidr() {
    let result = parse_routing_rules_from_env("10.0.0.0:tcp:80-443");
    assert!(matches!(result, Err(ConfigError::InvalidFormat(_))));
}

#[test]
fn test_parse_routing_rules_invalid_port_range() {
    let result = parse_routing_rules_from_env("10.0.0.0/8:tcp:443-80");
    assert!(matches!(result, Err(ConfigError::InvalidFormat(_))));
}

#[test]
fn test_parse_port_range() {
    assert_eq!(parse_port_range("80").unwrap(), (80, 80));
    assert_eq!(parse_port_range("80-443").unwrap(), (80, 443));
    assert_eq!(parse_port_range("53-53").unwrap(), (53, 53));

    assert!(parse_port_range("443-80").is_err());
    assert!(parse_port_range("invalid").is_err());
    assert!(parse_port_range("80-443-8080").is_err());
}

#[test]
fn test_toml_config_to_app_config() {
    let toml_config = TomlConfig {
        docker_connection_method: Some("http".to_string()),
        warp_container_name_pattern: Some("custom-*".to_string()),
        target_container_label: Some("custom.label".to_string()),
        network_preference_label: Some("custom.network".to_string()),
        routing_rules: Some(vec![TomlRoutingRule {
            destination: "172.16.0.0/12".to_string(),
            protocol: Some("udp".to_string()),
            port_range: Some((53, 53)),
        }]),
        logging: Some(LoggingConfig {
            level: Some("trace".to_string()),
            format: Some("plain".to_string()),
        }),
        docker: Some(DockerConfig {
            socket: Some("/custom/docker.sock".to_string()),
            api_version: Some("1.40".to_string()),
        }),
    };

    let base_config = AppConfig::default();
    let app_config = toml_config.to_app_config(base_config);

    assert_eq!(app_config.docker_connection_method, "http");
    assert_eq!(app_config.warp_container_pattern, "custom-*");
    assert_eq!(app_config.target_container_label, "custom.label");
    assert_eq!(app_config.network_preference_label, "custom.network");
    assert_eq!(app_config.log_level, "trace");
    assert_eq!(app_config.docker_socket, "/custom/docker.sock");
    assert_eq!(app_config.routing_rules.len(), 1);
    assert_eq!(app_config.routing_rules[0].destination, "172.16.0.0/12");
    assert_eq!(
        app_config.routing_rules[0].protocol,
        Some("udp".to_string())
    );
    assert_eq!(app_config.routing_rules[0].port_range, Some((53, 53)));
}

#[test]
fn test_compose_with_env_and_cli_precedence() {
    // The command line wins over the environment, which wins over the file.
    let toml_config = TomlConfig {
        docker_connection_method: None,
        warp_container_name_pattern: Some("toml-*".to_string()),
        target_container_label: Some("toml.label".to_string()),
        network_preference_label: None,
        routing_rules: None,
        logging: Some(LoggingConfig {
            level: Some("warn".to_string()),
            format: None,
        }),
        docker: None,
    };
    let env = docker_network_warp::config::EnvOverrides {
        docker_connection_method: None,
        warp_container_pattern: Some("env-*".to_string()),
        target_container_label: None,
        network_preference_label: None,
        log_level: Some("trace".to_string()),
        docker_socket: None,
        routing_rules: None,
    };
    let cli = CliArgs {
        config: None,
        log_level: None,
        docker_connection_method: None,
        docker_socket: None,
        warp_container_pattern: Some("cli-*".to_string()),
        target_container_label: None,
        network_preference_label: None,
        routing_rules: None,
        validate_config: false,
        print_default_config: false,
    };

    let manager = DefaultConfigurationManager::new(&cli, Some(toml_config), &env).unwrap();
    let config = manager.get_config();

    assert_eq!(config.warp_container_pattern, "cli-*");
    assert_eq!(config.log_level, "trace");
    assert_eq!(config.target_container_label, "toml.label");
}

#[test]
fn test_validation_rejects_bad_override_rules() {
    let cli = CliArgs {
        config: None,
        log_level: None,
        docker_connection_method: None,
        docker_socket: None,
        warp_container_pattern: None,
        target_container_label: None,
        network_preference_label: None,
        routing_rules: Some("no-slash-here".to_string()),
        validate_config: false,
        print_default_config: false,
    };
    let env = docker_network_warp::config::EnvOverrides {
        docker_connection_method: None,
        warp_container_pattern: None,
        target_container_label: None,
        network_preference_label: None,
        log_level: None,
        docker_socket: None,
        routing_rules: None,
    };
    let result = DefaultConfigurationManager::new(&cli, None, &env);
    assert!(matches!(result, Err(ConfigError::InvalidFormat(_))));
}

#[test]
fn test_parse_port_range_whitespace_and_bounds() {
    assert_eq!(parse_port_range("0-65535").unwrap(), (0, 65535));
    assert_eq!(parse_port_range(" 80 - 443 ").unwrap(), (80, 443));
    assert!(parse_port_range("65536").is_err());
    assert!(parse_port_range("").is_err());
}

#[test]
fn test_config_error_messages() {
    let err = ConfigError::ValidationError("Invalid log level".to_string());
    assert!(err.message().contains("Invalid log level"));
    let err = ConfigError::InvalidFormat("bad".to_string());
    assert!(err.message().contains("Invalid configuration format"));
    let err = ConfigError::FileNotFound {
        path: "/nowhere.toml".to_string(),
    };
    assert!(err.message().contains("/nowhere.toml"));
    let err = ConfigError::MissingRequired {
        field: "socket".to_string(),
    };
    assert!(err.message().contains("socket"));
}

#[test]
fn test_app_config_validation_case_insensitive() {
    // Log level and connection method are matched with ASCII case folded.
    let mut config = AppConfig::default();
    config.log_level = "INFO".to_string();
    config.docker_connection_method = "SOCKET".to_string();
    assert!(config.validate().is_ok());
}

#[test]
fn test_parse_port_range_leading_zeros() {
    assert_eq!(parse_port_range("00080").unwrap(), (80, 80));
    assert_eq!(parse_port_range("007-0009").unwrap(), (7, 9));
}

#[test]
fn test_parse_port_range_leading_plus() {
    // Decimal port parsing accepts one leading plus sign, as integer parsing
    // does; a bare or doubled sign does not parse.
    assert_eq!(parse_port_range("+80").unwrap(), (80, 80));
    assert_eq!(parse_port_range("+80-+443").unwrap(), (80, 443));
    assert!(parse_port_range("+").is_err());
    assert!(parse_port_range("++80").is_err());
}
