[package]
name = "lib_turls"
version = "0.1.0"
edition = "2021"
publish = false

[dependencies]
bincode = "=1.3.3"
byteorder = "=1.5.0"
metrics = "=0.24.6"
metrics-exporter-prometheus = "=0.18.3"
predicates = "=3.1.4"
rocket = { version = "=0.5.2", features = ["json"] }
serde = { version = "=1.0.229", features = ["derive"] }
serde_json = "=1.0.154"
sled = "=0.34.7"
yansi = "=1.0.1"
zerocopy = { version = "=0.7.35", features = ["derive"] }

[dev-dependencies]
uuid = { version = "=1.29.0", features = ["v4"] }
