[package]
name = "lite_runtime"
version = "0.1.0"
edition = "2021"
publish = false

[dependencies]
cssparser = "0.35.0"
libc = "*"
parley = "*"
png = "*"
serde = { version = "*", features = ["derive"] }
serde_json = "*"
swash = "*"
symphonia = { version = "*", features = ["all"] }
taffy = "*"
