[package]
name = "bedwatch_updater"
version = "0.1.0"
edition = "2021"
publish = false

[dependencies]
chrono = "0.4"
serde = { version = "1", features = ["derive"] }
serde_json = "1"
tokio = { version = "1", features = ["process", "io-util", "rt", "macros", "time", "sync"] }
libc = "0.2"
image = { version = "0.25", default-features = false, features = ["png"] }
ab_glyph = "0.2"
