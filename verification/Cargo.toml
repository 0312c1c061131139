[package]
name = "blobdump"
version = "0.1.0"
edition = "2021"
publish = false

[dependencies]
anyhow = "1"
dotenv = "0.15"
redb = "4"
tokio = { version = "1", features = ["macros", "rt-multi-thread"] }
iroh = { version = "1", default-features = false }
iroh-blobs = { version = "0.104", default-features = false }
n0-future = "0.3"
