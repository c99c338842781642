[package]
name = "rtipc_zbus"
version = "0.1.0"
edition = "2021"
publish = false

[dependencies]
rtipc = "=0.5.1"
serde = { version = "=1.0.229", features = ["derive"] }
tokio = { version = "=1.54.1", features = ["macros", "net", "rt-multi-thread", "time"] }
zbus = { version = "=5.19.0", default-features = false, features = ["tokio"] }
zvariant = "=5.15.1"
