[package]
name = "slowrx"
version = "0.3.0"
edition = "2021"
publish = false

[dependencies]
rustfft = "6"
hound = "3"
clap = { version = "4", features = ["derive"] }
anyhow = "1"
thiserror = "2"
image = { version = "0.25", default-features = false, features = ["png"] }
