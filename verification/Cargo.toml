[package]
name = "enarx-wasmldr"
version = "0.1.0"
edition = "2021"
publish = false

[dependencies]
anyhow = "=1.0.104"
clap = "=2.34.0"
env_logger = "=0.8.4"
log = "=0.4.34"
structopt = "=0.3.26"
wasmparser = "=0.78.2"
wasmtime = { version = "0.28", default-features = false }
wasmtime-wasi = "0.28"
