[package]
name = "psqlpy"
version = "0.1.0"
edition = "2021"
publish = false

[dependencies]
bytes = "*"
deadpool-postgres = "*"
futures-util = "*"
geo-types = "*"
macaddr = "*"
postgres-types = "*"
tokio-postgres = "*"
uuid = "*"

[dev-dependencies]
serde_json = "*"
