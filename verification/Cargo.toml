[package]
name = "olivaw"
version = "0.1.0"
edition = "2021"
publish = false

[dependencies]
heapless = { version = "=0.8.0", features = ["serde"] }
postcard = "1"
serde = { version = "1", default-features = false, features = ["derive"] }
serde-json-core = "0.6"
embedded-hal = "1"
thiserror = { version = "2", default-features = false }
embassy-sync = "0.7"
embassy-time = "0.5"
embassy-futures = "0.1"
static_cell = "2"
log = "0.4"
