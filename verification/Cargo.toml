[package]
name = "libran"
version = "0.1.0"
edition = "2021"
publish = false

[dependencies]
regex = "1"
unicode-normalization = "0.1"
sha2 = "0.10"
lopdf = "*"
unpdf = "*"
serde = { version = "1", features = ["derive"] }
serde_json = "1"
directories = "*"
