[package]
name = "bevy_3ds"
version = "0.1.0"
edition = "2021"
publish = false

[dependencies]
bevy = { version = "0.12.1", default-features = false, features = ["bevy_asset"] }
log = "0.4"
tracing = "0.1"
thiserror = "1"
lazy_static = "1"
futures = "0.3"
libc = "0.2"
