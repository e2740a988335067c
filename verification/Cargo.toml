[package]
name = "xmf"
version = "0.1.0"
edition = "2021"
publish = false

[dependencies]
anyhow = "=1.0.104"
async-trait = "=0.1.92"
chrono = { version = "=0.4.45", features = ["serde"] }
clap = { version = "=4.6.7", features = ["derive"] }
comfy-table = "=7.2.2"
console = "=0.16.6"
directories = "=6.0.0"
fjall = "=2.11.2"
futures = "=0.3.34"
indicatif = "=0.18.6"
num-traits = "=0.2.19"
reqwest = { version = "=0.12.28", default-features = false, features = ["json", "rustls-tls"] }
rust_decimal = { version = "=1.43.0", features = ["maths"] }
rust_finprim = "=0.4.0"
serde = { version = "=1.0.229", features = ["derive"] }
serde_json = "=1.0.154"
serde_yaml = "=0.9.34"
sled = "=0.34.7"
tokio = { version = "=1.54.1", features = ["macros", "rt-multi-thread", "sync", "time"] }
tracing = "=0.1.44"
tracing-subscriber = { version = "=0.3.23", features = ["env-filter"] }
