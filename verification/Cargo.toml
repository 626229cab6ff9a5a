[package]
name = "xjtuportal"
version = "0.1.0"
edition = "2021"
publish = false

[dependencies]
aes = "*"
cbc = { version = "*", features = ["alloc", "block-padding"] }
hex = "*"
serde = { version = "1", features = ["derive"] }
serde_json = "1"
url = "2"
toml = "*"
toml_edit = "*"
reqwest = { version = "0.12", default-features = false }
tokio = { version = "1", features = ["rt", "macros", "fs", "sync", "time"] }
clap = { version = "4", features = ["derive"] }
clap_complete = "4"
get_if_addrs = "*"
thiserror = "2"
tracing = "0.1"
tracing-subscriber = { version = "0.3", features = ["env-filter"] }
