[package]
name = "sweetpaste"
version = "0.1.0"
edition = "2021"
publish = false

[dependencies]
chacha20 = "0.8"
clru = "0.6"
fnv = "1"
mnemonic = "1"
color-eyre = { version = "0.6", default-features = false }
futures = "0.3"
handlebars = "4"
hex = { version = "0.4", features = ["serde"] }
rand = "0.8"
serde = { version = "1", features = ["derive"] }
serde_json = "1"
sqlx = { version = "0.7", default-features = false, features = ["runtime-tokio", "sqlite", "migrate"] }
syntect = { version = "5", default-features = false, features = ["default-fancy"] }
thiserror = "1"
tokio = { version = "1", features = ["rt-multi-thread", "macros", "sync", "fs"] }
toml = "0.5"
warp = { version = "0.3", default-features = false }
