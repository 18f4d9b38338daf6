[package]
name = "coalign"
version = "0.1.0"
edition = "2021"
publish = false

[dependencies]
bytemuck = "1"
rustc-hash = "2"
xxhash-rust = { version = "0.8", features = ["xxh3"] }
thiserror = "2"

[dev-dependencies]
rand = "0.8"
