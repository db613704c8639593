[package]
name = "starship-jj"
version = "0.1.0"
edition = "2021"
publish = false

[dependencies]
clap = { version = "=4.6.7", features = ["derive"] }
config = { version = "=0.15.27", default-features = false, features = ["toml"] }
dotenvy = "=0.15.7"
etcetera = "=0.11.0"
glob = "=0.3.4"
jj-cli = { version = "=0.34.0", default-features = false }
jj-lib = { version = "=0.34.0", default-features = false }
nu-ansi-term = "=0.50.3"
pollster = "=0.4.0"
serde = { version = "=1.0.229", features = ["derive"] }
toml = "=0.9.12"
unicode-width = "=0.2.0"
