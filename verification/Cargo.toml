[package]
name = "hoya"
version = "0.1.0"
edition = "2021"
publish = false

[dependencies]
ariadne = "0.1"
bincode = "1.3"
combine = "4"
rustyline = "10"
serde = { version = "1", features = ["derive"] }
thiserror = "1"
