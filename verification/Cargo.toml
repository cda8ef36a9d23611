[package]
name = "thrussh_client"
version = "0.1.0"
edition = "2021"
publish = false

[dependencies]
anyhow = "1"
bytes = "0.6"
cryptovec = "=0.6.1"
futures = "0.3"
pretty-hex = "0.2"
thrussh-keys = "0.19"
tokio = { version = "0.3", features = ["full"] }
