[package]
name = "sigma-theme"
version = "0.1.0"
edition = "2021"
publish = false

[dependencies]
pulldown-cmark = { version = "=0.13.6", default-features = false, features = ["html"] }
mime_guess = "=2.0.5"
serde = { version = "=1.0.229", features = ["derive"] }
thiserror = "=2.0.21"
tracing = "=0.1.44"
tokio = { version = "=1.54.1", features = ["sync", "net", "signal", "macros", "rt", "rt-multi-thread", "time"] }
futures-util = "=0.3.34"
reqwest = { version = "=0.13.5", default-features = false, features = ["json"] }
axum = "=0.8.9"
tower-http = { version = "=0.7.1", features = ["catch-panic", "set-header"] }
warp = { version = "=0.4.3", features = ["server"] }
askama = "=0.16.1"
rust-embed = "=8.13.0"
