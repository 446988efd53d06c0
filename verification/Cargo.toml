[package]
name = "node_linker"
version = "0.1.0"
edition = "2021"

[dependencies]
pathdiff = "=0.2.3"
tempfile = "=3.27.0"
reflink = "=0.1.3"
tracing = "=0.1.44"
oro-common = "=0.3.34"
oro-script = "=0.3.34"
oro-shim-bin = "=0.3.34"
serde = { version = "1", features = ["derive"] }
