[package]
name = "cuboard"
version = "0.1.0"
edition = "2021"
publish = false

[dependencies]
aes = "0.8"
btleplug = "*"
futures = "0.3"
tokio = { version = "1", features = ["rt-multi-thread", "macros", "time"] }
uuid = "1"
termios = "*"
defer = "*"
