[package]
name = "lunaris_api"
version = "0.1.0"
edition = "2021"
publish = false

[dependencies]
arc-swap = "1"
bevy_ecs = { version = "0.16", default-features = false }
dashmap = "6"
egui = { version = "0.32", default-features = false }
fluent = "0.16"
futures = "0.3"
inventory = "0.3"
lz4_flex = "0.11"
new_debug_unreachable = "1"
parking_lot = "0.12"
qoi = "0.4"
serde = { version = "1", features = ["derive"] }
slab = "0.4"
thiserror = "2"
tokio = { version = "1", features = ["sync", "time"] }
tracing = "0.1"
wgpu = { version = "26", default-features = false }
zstd = "0.13"
