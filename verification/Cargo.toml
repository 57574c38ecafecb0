[package]
name = "vastatrix"
version = "0.1.0"
edition = "2021"
publish = false

[dependencies]
anyhow = "1"
broom = "0.3"
byteorder = "1"
bytes = "1"
clap = { version = "4", features = ["derive"] }
thiserror = "1"
zip = { version = "0.6", default-features = false, features = ["deflate"] }
