[package]
name = "lunatic_distributed"
version = "0.1.0"
edition = "2021"
publish = false

[dependencies]
anyhow = "=1.0.104"
bytes = "=1.12.1"
log = "=0.4.34"
quinn = "=0.9.4"
rmp-serde = "=1.3.1"
rustls = "=0.20.9"
rustls-pemfile = "=1.0.4"
serde = { version = "=1.0.229", features = ["derive"] }
tokio = { version = "=1.53.2", features = ["rt-multi-thread", "macros", "time"] }

[dev-dependencies]
rcgen = "0.11"
