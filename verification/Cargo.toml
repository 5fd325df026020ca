[package]
name = "infra_hex_rs"
version = "0.1.0"
edition = "2021"
publish = false

[dependencies]
arrow-array = "=56.2.1"
arrow-schema = "=56.2.1"
futures = "=0.3.34"
geo-types = "=0.7.20"
geoarrow-array = "=0.6.2"
geoarrow-schema = "=0.6.2"
geojson = "=0.24.2"
geoparquet = "=0.6.2"
n3gb-rs = { version = "=0.2.3", default-features = false }
parquet = { version = "=56.2.1", default-features = false, features = ["arrow"] }
rayon = "=1.12.0"
reqwest = { version = "=0.13.5", default-features = false, features = ["json"] }
serde = { version = "=1.0.229", features = ["derive"] }
serde_json = "=1.0.154"
thiserror = "=2.0.21"
tokio = { version = "=1.54.1", default-features = false, features = ["macros", "rt", "time"] }
urlencoding = "=2.1.3"
