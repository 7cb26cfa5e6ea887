[package]
name = "micro_platform"
version = "0.1.0"
edition = "2021"
publish = false

[dependencies]
serde = { version = "=1.0.229", features = ["derive"] }
serde_json = "=1.0.154"
swc_common = "*"
swc_ecma_ast = "*"
swc_ecma_parser = "*"
