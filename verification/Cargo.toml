[package]
name = "mint_node"
version = "0.1.0"
edition = "2021"
publish = false

[dependencies]
bincode = "=1.3.3"
bls_dkg = "=0.9.2"
env_logger = "=0.11.11"
log = "=0.4.34"
miette = "=7.6.0"
qp2p = { version = "=0.28.7", features = ["structopt"] }
rand = "=0.7.3"
rand_core = "=0.5.1"
serde = { version = "=1.0.229", features = ["derive"] }
structopt = "=0.3.26"
tokio = { version = "=1.53.2", features = ["macros", "rt-multi-thread"] }
xor_name = "=4.1.0"
