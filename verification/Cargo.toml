[package]
name = "dmypyls"
version = "0.1.0"
edition = "2021"
publish = false

[dependencies]
log = "0.4"
regex = "1"
serde = { version = "1", features = ["derive"] }
serde_json = "1"
serde_yml = "*"
simple-logging = "2"
tokio = { version = "1", features = ["io-std", "macros", "rt-multi-thread"] }
tower-lsp = "0.20"
xdg = "2"
