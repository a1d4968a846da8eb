[package]
name = "autarky_compiler"
version = "0.1.0"
edition = "2021"
publish = false

[dependencies]
inkwell = { version = "=0.11.0", features = ["llvm14-0-force-dynamic"] }
serde_json = "=1.0.154"
clap = { version = "=4.6.7", features = ["derive"] }
