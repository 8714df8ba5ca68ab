[package]
name = "mdnt_extractor"
version = "0.1.0"
edition = "2021"
publish = false

[dependencies]
anyhow = "=1.0.104"
chrono = { version = "=0.4.45", default-features = false, features = ["clock"] }
clap = { version = "=4.6.7", features = ["derive"] }
env_logger = "=0.11.11"
haloumi = { version = "=0.5.15", default-features = false, features = ["picus-backend"] }
haloumi-ir-gen = "=0.5.15"
inventory = "=0.3.25"
log = "=0.4.35"
midnight-circuits = "=7.3.0"
midnight-curves = "=0.3.1"
midnight-proofs = "=0.8.3"
multi_log = "=0.1.2"
num-bigint = "=0.4.8"
proc-macro2 = "=1.0.107"
quote = "=1.0.47"
simplelog = "=0.12.2"
syn = { version = "=2.0.119", features = ["full"] }
thiserror = "=2.0.21"
