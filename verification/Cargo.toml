[package]
name = "zipher_engine"
version = "0.1.0"
edition = "2021"
publish = false

[dependencies]
anyhow = "=1.0.104"
bip0039 = "=0.12.0"
hex = "=0.4.3"
lazy_static = "=1.5.1"
orchard = "=0.14.0"
pczt = { version = "=0.7.0", features = ["orchard"] }
prost = "=0.14.4"
rand = "=0.8.8"
rusqlite = { version = "=0.37.0", features = ["bundled-sqlcipher-vendored-openssl", "array"] }
sapling-crypto = "=0.7.0"
secrecy = "=0.8.0"
serde = { version = "=1.0.229", features = ["derive"] }
tokio = { version = "=1.54.1", features = ["rt-multi-thread", "sync", "time", "macros"] }
tonic = { version = "=0.14.9", features = ["tls-ring", "tls-webpki-roots"] }
tracing = "=0.1.44"
zcash_address = "=0.12.0"
zcash_client_backend = { version = "=0.23.0", features = ["lightwalletd-tonic", "lightwalletd-tonic-transport", "orchard", "transparent-inputs", "pczt"] }
zcash_client_sqlite = { version = "=0.21.1", features = ["orchard", "serde", "transparent-inputs"] }
zcash_keys = { version = "=0.14.0", features = ["orchard", "transparent-inputs", "unstable"] }
zcash_primitives = "=0.28.0"
zcash_proofs = "=0.28.0"
zcash_protocol = "=0.9.0"
zcash_script = "=0.4.5"
zcash_transparent = "=0.8.0"
zeroize = "=1.9.1"
zip32 = "=0.2.1"
