[package]
name = "lum_event"
version = "0.1.0"
edition = "2021"
publish = false

[dependencies]
lum_libs = { version = "=0.2.14", features = ["tokio", "dashmap", "parking_lot"] }
lum_boxtypes = "=0.4.0"
lum_log = "=0.4.0"
thiserror = "=2.0.21"
