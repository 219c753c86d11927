[package]
name = "ros_client"
version = "0.1.0"
edition = "2021"
publish = false

[dependencies]
ipnet = "*"
mac_address = "*"
tokio = { version = "*", features = ["net", "io-util", "rt", "macros"] }
