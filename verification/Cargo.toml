[package]
name = "jetpack_hack"
version = "0.1.0"
edition = "2021"
publish = false

[dependencies]
anyhow = "1"
btleplug = "0.11"
futures = "0.3"
tokio = { version = "1", features = ["macros", "rt-multi-thread", "process", "time"] }
uuid = "1"
