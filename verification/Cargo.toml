[package]
name = "nearby"
version = "0.1.0"
edition = "2021"
publish = false

[dependencies]
pcap = "*"
radiotap = "*"
clap = "*"
console = "*"
ctrlc = "*"
serde = { version = "*", features = ["derive"] }
serde_json = "*"
