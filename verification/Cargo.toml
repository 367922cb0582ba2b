[package]
name = "hotreload"
version = "0.1.0"
edition = "2021"
publish = false

[dependencies]
anstream = "0.6"
anyhow = "1"
libc = "0.2"
log = "0.4"
once_cell = "1"
os_pipe = "1"
owo-colors = "4"
pyo3 = { version = "0.20", features = ["extension-module", "abi3-py38"] }
regex = "1"
rustpython-parser = "0.3"
serde = { version = "1", features = ["derive"] }
serde_json = "1"
sha2 = "0.10"
uuid = { version = "1", features = ["v4"] }
walkdir = "2"
