[package]
name = "wikidump_extract"
version = "0.1.0"
edition = "2021"
publish = false

[dependencies]
anyhow = "=1.0.104"
bzip2 = "=0.6.1"
flate2 = "=1.1.10"
jiff = "=0.2.37"
memmap2 = "=0.9.11"
quick-xml = "=0.37.5"
rayon = "=1.12.0"
serde = { version = "=1.0.229", features = ["derive"] }
serde_json = "=1.0.151"
toml = "=0.9.8"
