[package]
name = "librepods_core"
version = "1.0.0"
edition = "2021"
publish = false

[dependencies]
aes-gcm = "0.10"
blake3 = { version = "1", features = ["pure"] }
clap = { version = "4", features = ["derive"] }
crc = "3"
hkdf = "0.12"
serde = { version = "1", features = ["derive"] }
serde_json = "1"
sha2 = "0.10"
thiserror = "1"
tokio = { version = "1", features = ["macros", "rt-multi-thread"] }
zeroize = "1"
