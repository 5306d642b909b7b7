[package]
name = "icecast_influx"
version = "0.1.0"
edition = "2021"
publish = false

[dependencies]
influent = "=0.4.1"
time = "=0.1.45"
reqwest = { version = "=0.11.27", default-features = false }
tokio = { version = "=1.54.1", features = ["rt", "macros"] }
serde = "=1.0.229"
serde_derive = "=1.0.229"
serde-xml-rs = "=0.4.1"
fern = "=0.3.5"
log = "=0.3.9"
