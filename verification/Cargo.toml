[package]
name = "ring_detector"
version = "0.1.0"
edition = "2021"
publish = false

[dependencies]
anyhow = "1"
async-trait = "0.1"
clap = { version = "4", features = ["derive", "env"] }
dns-parser = "0.8"
env_logger = "*"
log = "0.4"
prost = "*"
rumqttc = { version = "*", default-features = false }
tokio = { version = "1", features = ["macros", "net", "rt-multi-thread", "signal", "sync", "time"] }

[dev-dependencies]
tempfile = "3"
