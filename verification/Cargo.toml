[package]
name = "scan2bim_converter"
version = "0.1.0"
edition = "2021"
publish = false

[dependencies]
serde = { version = "1", features = ["derive"] }
sysinfo = { version = "0.33", default-features = false, features = ["disk"] }
tokio = { version = "1", features = ["io-util", "macros", "process", "rt", "sync", "time"] }
uuid = { version = "1", features = ["v4"] }
