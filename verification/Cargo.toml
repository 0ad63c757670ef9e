[package]
name = "raw_ipa"
version = "0.1.0"
edition = "2021"
publish = false

[dependencies]
async-trait = "0.1"
byteorder = "1"
clap = { version = "4", features = ["derive"] }
dashmap = "5"
futures = "0.3"
generic-array = "0.14"
hyper = "0.14"
rand = "0.8"
rand_distr = "0.4"
serde = { version = "1", features = ["derive"] }
serde_json = "1"
thiserror = "1"
tokio = { version = "1", features = ["macros", "rt", "rt-multi-thread", "sync", "time"] }
tracing = "0.1"
typenum = "1"
