[package]
name = "dig-wallet-backend"
version = "0.1.0"
edition = "2021"
publish = false

[dependencies]
async-trait = "0.1"
chia-bls = "=0.36.1"
chia-protocol = "=0.36.1"
chia-puzzle-types = "=0.36.1"
chia-wallet-sdk = "=0.36.0"
clvm-traits = "=0.36.1"
clvmr = "=0.16.4"
dig-cat = "=0.3.1"
dig-constants = "=0.11.2"
dig-did = "=0.8.1"
dig-events-protocol = "=0.1.3"
dig-nft = "=0.3.1"
dig-offers = "=0.3.1"
dig-options = "=0.5.0"
dig-tips = "=0.3.1"
enumset = { version = "=1.1.15", features = ["serde"] }
hex = "=0.4.3"
# Keeps the URL stack underneath the Chia client crates on its small IDNA backend.
idna_adapter = "=1.1.0"
indexmap = "=2.14.2"
# Builds the zlib under the offer codec from its C source, with the C compiler alone.
libz-sys = { version = "=1.1.31", features = ["static"] }
rusqlite = { version = "=0.38.0", features = ["bundled"] }
serde = { version = "1", features = ["derive"] }
serde_json = "1.0.145"
thiserror = "2"
tokio = { version = "1", features = ["sync", "rt", "macros"] }

[dev-dependencies]
chia-sdk-test = "=0.36.0"
