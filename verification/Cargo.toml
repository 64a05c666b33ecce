[package]
name = "cab-syntax"
version = "0.1.0"
edition = "2021"
publish = false

[dependencies]
smallvec = "=2.0.0-beta.3"
num = "=0.4.3"
yansi = { version = "=1.0.1", features = ["detect-tty", "detect-env"] }
clap = { version = "=4.6.7", features = ["derive"] }
tokio = { version = "=1.54.1", features = ["rt-multi-thread", "macros", "fs", "io-util", "io-std"] }
