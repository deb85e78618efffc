[package]
name = "gnt2influx"
version = "0.1.0"
edition = "2021"
publish = false

[dependencies]
anyhow = "*"
chrono = "*"
clap = "*"
csv = "*"
env_logger = "*"
futures = "*"
influxdb = "*"
influxdb2 = "*"
log = "*"
quick-xml = "*"
serde = { version = "*", features = ["derive"] }
tokio = { version = "*", features = ["macros", "rt-multi-thread"] }
toml = "*"
