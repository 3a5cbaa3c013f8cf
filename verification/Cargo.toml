[package]
name = "quickfall"
version = "0.1.0"
edition = "2021"
publish = false

[dependencies]
colored = "=3.1.1"
inkwell = { version = "=0.11.0", default-features = false, features = ["llvm14-0-force-dynamic"] }
