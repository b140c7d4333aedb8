[package]
name = "isolate"
version = "0.1.0"
edition = "2021"
publish = false

[dependencies]
uuid = { version = "1", features = ["v4"] }
nix = { version = "0.29", features = ["fs", "mount", "process", "resource", "sched", "signal", "user"] }
libc = "0.2"
axum = "0.7"
tokio = { version = "1", features = ["full"] }
serde = { version = "1", features = ["derive"] }
clap = { version = "4", features = ["derive"] }
tracing = "0.1"
tracing-subscriber = "0.3"
tonic = "0.12"
prost = "0.13"
