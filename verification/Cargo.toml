[package]
name = "tuwui"
version = "0.1.0"
edition = "2021"
publish = false

[dependencies]
semver = "1"
toml_edit = "*"
has-nerd-font = "*"
ratatui = "0.30"
crossterm = { version = "0.29", features = ["event-stream"] }
ratatui-input-manager = "*"
tokio = { version = "1", features = ["full"] }
reqwest = { version = "0.12", default-features = false, features = ["json", "rustls-tls"] }
serde = { version = "1", features = ["derive"] }
cargo_metadata = "*"
directories = "*"
config = { version = "*", default-features = false, features = ["toml"] }
futures = "*"
tracing = "*"
tracing-subscriber = { version = "*", features = ["env-filter"] }
tracing-error = "*"
ansi-to-tui = "*"
itertools = "*"
better-panic = "*"
human-panic = "*"
indoc = "*"
