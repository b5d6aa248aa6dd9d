[package]
name = "portal_input"
version = "0.1.0"
edition = "2021"
publish = false

[dependencies]
reis = "=0.5.0"
ashpd = { version = "=0.11.1", default-features = false, features = ["tokio"] }
clap = { version = "=4.6.7", features = ["derive"] }
tokio = { version = "=1.54.1", features = ["rt-multi-thread", "macros", "time"] }
