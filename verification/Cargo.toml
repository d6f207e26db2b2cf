[package]
name = "http_client_vcr"
version = "0.2.0"
edition = "2021"
publish = false

[dependencies]
async-trait = "0.1"
base64 = "0.22"
clap = "4"
http-client = { version = "6", default-features = false }
http-types = "2"
levenshtein = "1"
log = "0.4"
regex = "1"
serde = { version = "1", features = ["derive"] }
serde_json = "1"
serde_yaml = "0.9"
tokio = { version = "1", features = ["sync", "rt", "macros"] }
url = "2"
urlencoding = "2"
