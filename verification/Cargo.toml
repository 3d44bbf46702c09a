[package]
name = "messenger"
version = "0.1.0"
edition = "2021"
publish = false

[dependencies]
async-std = { version = "=1.13.2", features = ["attributes", "unstable"] }
clap = { version = "=4.6.7", features = ["derive"] }
futures = "=0.3.34"
sd-notify = "=0.5.0"
tracing = "=0.1.44"
tracing-subscriber = { version = "=0.3.23", features = ["env-filter"] }

[dev-dependencies]
tempfile = "=3.27.0"
