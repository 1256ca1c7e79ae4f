[package]
name = "lite_rpc"
version = "0.1.0"
edition = "2021"
publish = false

[dependencies]
log = "=0.4.35"
clap = "=2.34.0"
anyhow = "=1.0.104"
num_cpus = "=1.17.0"
rayon = "=1.12.0"
crossbeam-channel = "=0.5.17"
signal-hook = "=0.3.18"
solana-hash = { version = "=4.7.0", features = ["decode", "std"] }
solana-pubkey = "=4.4.0"
solana-keypair = "=4.0.0"
solana-signer = "=4.0.0"
