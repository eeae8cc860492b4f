[package]
name = "dls"
version = "0.9.13"
edition = "2021"
publish = false

[dependencies]
crossbeam = "0.8"
jsonrpc = "*"
log = "0.4"
lsp-types = "0.97"
regex = "1"
serde = { version = "1", features = ["derive"] }
serde_ignored = "0.1"
serde_json = "1"
thiserror = "*"
