[package]
name = "worker_supervisor"
version = "0.1.0"
edition = "2021"
publish = false

[dependencies]
uuid = { version = "=1.29.0", features = ["v4", "serde"] }
async-executor = "=1.14.0"
async-oneshot = "=0.5.9"
event-listener-primitives = "=2.0.2"
futures-lite = "=1.13.0"
log = "=0.4.34"
parking_lot = "=0.12.5"
serde = { version = "=1.0.229", features = ["derive"] }
thiserror = "=1.0.69"
