[package]
name = "header_triage"
version = "0.1.0"
edition = "2021"
publish = false

[dependencies]
futures = "0.1"
hex = "0.4"
mime = "0.3"
reqwest = "0.9"
serde = { version = "1", features = ["derive"] }
serde_json = "1"
strfmt = "0.1"
structopt = "0.3"
tokio = "0.1"
