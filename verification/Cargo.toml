[package]
name = "flat_index"
version = "0.1.0"
edition = "2021"
publish = false

[dependencies]
toml = { version = "*", features = ["preserve_order"] }
serde = { version = "*", features = ["derive"] }
thiserror = "*"
zip = { version = "*", default-features = false }
async_zip = "*"
reqwest = { version = "*", default-features = false }
