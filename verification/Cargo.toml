[package]
name = "turbocharge"
version = "0.1.0"
edition = "2021"
publish = false

[dependencies]
console = "*"
dialoguer = "*"
futures = "*"
itertools = "*"
notify = "*"
pidlock = "*"
rayon = "*"
serde_json = "*"
swc_core = { version = "*", features = ["common", "ecma_ast", "ecma_utils"] }
thiserror = "*"
tokio = { version = "1", features = ["full"] }
tracing = "*"
