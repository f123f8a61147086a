[package]
name = "roxy_cli"
version = "0.1.0"
edition = "2021"
publish = false

[dependencies]
clap = { version = "=4.6.7", features = ["derive"] }
glob = "=0.3.4"
roxy_core = "=0.1.1"
roxy_markdown_parser = "=0.1.2"
tera = "=1.20.1"
toml = "=1.1.8"
