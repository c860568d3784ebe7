[package]
name = "switchboard_controller"
version = "0.1.0"
edition = "2021"
publish = false

[dependencies]
uuid = { version = "*", features = ["v7"] }
dirs = "*"
rand = "*"
http = "*"
clap = { version = "*", features = ["derive", "env"] }
tokio = { version = "*", features = ["full"] }
serde = { version = "*", features = ["derive"] }
serde_json = "*"
toml = "*"
k8s-openapi = { version = "*", features = ["latest"] }
kube = "*"
gateway-api = "*"
