[package]
name = "sps2-builder"
version = "0.1.0"
edition = "2021"
publish = false

[dependencies]
bstr = "1"
md-5 = "0.10"
sha2 = "0.10"
object = "0.36"
ignore = "0.4"
num_cpus = "1"
which = "*"
zip = "*"
serde = { version = "1", features = ["derive"] }
serde_json = "1"
chrono = "0.4"
tokio = { version = "1", features = ["fs", "io-util", "rt", "macros"] }
async-compression = { version = "0.4", features = ["tokio", "zstd"] }
