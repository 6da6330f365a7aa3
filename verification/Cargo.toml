[package]
name = "zkp_postcard"
version = "0.3.0"
edition = "2021"
publish = false

[dependencies]
p3-air = "*"
p3-baby-bear = "*"
p3-challenger = "*"
p3-commit = "*"
p3-field = "*"
p3-fri = "*"
p3-keccak = "*"
p3-matrix = "*"
p3-merkle-tree = "*"
p3-monty-31 = "*"
p3-poseidon2-air = "*"
p3-symmetric = "*"
p3-uni-stark = "*"
sha2 = "0.10"
hex = "0.4"
bincode = "1"
rand = "*"
serde = { version = "1", features = ["derive"] }
serde_json = "1"
base64 = "0.22"
chrono = "0.4"
tokio = { version = "1", features = ["macros", "rt-multi-thread", "net", "sync"] }
axum = "*"
tower-http = { version = "*", features = ["cors"] }
reqwest = { version = "*", default-features = false, features = ["json"] }
