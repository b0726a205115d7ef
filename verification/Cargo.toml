[package]
name = "iggy_core"
version = "0.1.0"
edition = "2021"
publish = false

[dependencies]
ahash = "=0.8.12"
bytemuck = "=1.25.2"
bytes = "=1.12.1"
compio = { version = "=0.19.2", features = ["fs", "io", "macros"] }
futures = "=0.3.34"
secrecy = "=0.10.3"
tokio = { version = "=1.54.1", features = ["sync"] }
tracing = "=0.1.44"
twox-hash = "=2.1.5"
