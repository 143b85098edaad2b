[package]
name = "kurai"
version = "0.1.0"
edition = "2021"
publish = false

[dependencies]
inkwell = { version = "=0.5.0", features = ["llvm14-0-force-dynamic"] }
colored = "=2.2.0"
clap = { version = "=4.6.7", features = ["derive"] }
