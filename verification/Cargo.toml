[package]
name = "clap_config_fallback"
version = "0.1.0"
edition = "2021"
publish = false

[dependencies]
heck = "=0.5.0"
syn = { version = "=2.0.119", features = ["full", "extra-traits"] }
quote = "=1.0.47"
proc-macro2 = "=1.0.107"
darling = "=0.21.3"
derive_more = { version = "=2.1.1", features = ["deref", "deref_mut"] }
figment = { version = "=0.10.19", features = ["toml", "yaml", "json"] }
serde = { version = "=1.0.229", features = ["derive"] }
clap = { version = "=4.6.7", features = ["derive"] }
