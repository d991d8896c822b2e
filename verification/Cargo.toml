[package]
name = "snippet_runner"
version = "0.1.0"
edition = "2021"
publish = false

[dependencies]
toml = "0.8"
serde_json = { version = "1", features = ["raw_value"] }
moka = { version = "0.12", features = ["sync"] }
serde = { version = "1", features = ["derive"] }
tokio = { version = "1", features = ["full"] }
rocket = { version = "0.5", features = ["json"] }
warp = "0.3"
fs_extra = "1"
tracing = "0.1"
tracing-subscriber = { version = "0.3", features = ["env-filter"] }
chrono = "0.4"
ariadne = "0.4"
chumsky = "*"
