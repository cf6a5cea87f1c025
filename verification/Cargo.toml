[package]
name = "tablekit"
version = "0.1.0"
edition = "2021"
publish = false

[dependencies]
anyhow = "=1.0.104"
cached = "=0.44.0"
csv = "=1.4.0"
fast-float = "=0.2.0"
geosuggest-core = "=0.4.5"
geosuggest-utils = "=0.4.5"
indicatif = "=0.17.11"
log = "=0.4.34"
polars = { version = "=0.45.1", default-features = false, features = ["lazy", "csv", "pivot", "temporal"] }
polars-ops = { version = "=0.45.1", default-features = false, features = ["pivot"] }
rayon = "=1.12.0"
regex = "=1.13.1"
tokio = { version = "=1.54.1", features = ["rt-multi-thread"] }
