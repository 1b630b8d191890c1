[package]
name = "zena_cli"
version = "0.1.0"
edition = "2021"
publish = false

[dependencies]
anyhow = "=1.0.104"
clap = { version = "=4.6.7", features = ["derive"] }
directories = "=6.0.0"
glob = "=0.3.4"
libc = "=0.2.191"
walkdir = "=2.5.0"
wasmtime = "=46.0.3"
wasmtime-wasi = "=46.0.3"
