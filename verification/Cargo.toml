[package]
name = "rspack_resolver"
version = "0.1.0"
edition = "2021"
publish = false

[dependencies]
percent-encoding = "=2.3.2"
memchr = "=2.8.3"
simdutf8 = "=0.1.5"
serde_json = { version = "=1.0.154", features = ["preserve_order"] }
rustix = { version = "=1.1.6", features = ["fs"] }
thiserror = "=2.0.21"
rustc-hash = "=2.1.3"
dashmap = "6"
