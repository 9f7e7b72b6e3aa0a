[package]
name = "piquel-log"
version = "0.1.0"
edition = "2021"
publish = false

[dependencies]
time = { version = "0.3", features = ["formatting", "parsing", "macros"] }
tracing = "0.1"
tracing-subscriber = { version = "0.3", default-features = false, features = ["registry", "std"] }
tracing-log = "0.2"
parking_lot = "0.12"
thiserror = "2"

[dev-dependencies]
log = "0.4"
