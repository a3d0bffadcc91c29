[package]
name = "dex_checksum_tools"
version = "0.1.0"
edition = "2021"
publish = false

[dependencies]
structopt = "*"

[dev-dependencies]
adler32 = "*"
