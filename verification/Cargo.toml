[package]
name = "cloud_p2p_images"
version = "0.1.0"
edition = "2021"
publish = false

[dependencies]
image = "0.24"
log = "0.4"
minifb = "0.25"
rand = "0.8"
serde = { version = "1", features = ["derive"] }
serde_cbor = "0.11"
sysinfo = "0.29"
tokio = { version = "1", features = ["fs", "macros", "net", "rt-multi-thread", "sync", "time"] }
