[package]
name = "mymake"
version = "0.1.0"
edition = "2021"
publish = false

[dependencies]
regex = "1"
textwrap = "0.16"
serde = { version = "1", features = ["derive"] }
structopt = "0.3"
thiserror = "1"
toml = "0.5"
log = "0.4"
