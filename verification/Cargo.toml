[package]
name = "d2t_wizard"
version = "0.1.0"
edition = "2021"
publish = false

[dependencies]
gettext = "*"
crossterm = "0.25"
tui = "0.19"
serde = { version = "1", features = ["derive"] }
toml = "*"
figment = { version = "*", features = ["toml", "env"] }
tokio = { version = "1", features = ["macros", "rt-multi-thread"] }
serenity = { version = "0.11", default-features = false, features = ["client", "gateway", "rustls_backend", "model"] }
