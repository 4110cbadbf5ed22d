[package]
name = "mobile_sentinel"
version = "0.1.0"
edition = "2021"
publish = false

[dependencies]
serde = { version = "1", features = ["derive"] }
serde_json = "1"
thiserror = "1"
uuid = { version = "1", features = ["v4"] }
once_cell = "1"
log = "0.4"
libc = "0.2"
android_logger = "*"
ndk-context = "0.1"

[dev-dependencies]
tempfile = "3"
