[package]
name = "lrama"
version = "0.1.0"
edition = "2021"
publish = false

[dependencies]
byteorder = "1"
memmap2 = "0.9"
num_cpus = "1"
clap = { version = "4", features = ["derive"] }
rand = "0.8"
thiserror = "1"
anyhow = "1"
