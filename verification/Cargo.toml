[package]
name = "no_face"
version = "0.1.0"
edition = "2021"
publish = false

[dependencies]
minijinja = "*"
resvg = "*"
axum = "*"
tokio = { version = "*", features = ["rt-multi-thread", "macros", "signal", "net"] }
serde = { version = "*", features = ["derive"] }
toml = "*"

[dev-dependencies]
fnv = "*"
