[package]
name = "docker_network_warp"
version = "0.1.0"
edition = "2021"
publish = false

[dependencies]
bollard = "*"
clap = { version = "*", features = ["derive"] }
futures-util = "*"
ipnetwork = "*"
netns-rs = "*"
regex = "*"
rtnetlink = "*"
serde = { version = "*", features = ["derive"] }
thiserror = "*"
tokio = { version = "*", features = ["rt-multi-thread", "macros", "signal", "sync", "time"] }
toml = "*"
tracing = "*"
tracing-subscriber = { version = "*", features = ["env-filter"] }
