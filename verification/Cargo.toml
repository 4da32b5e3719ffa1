[package]
name = "idp_tool"
version = "0.1.0"
edition = "2021"
publish = false

[dependencies]
rustc_apfloat = "*"
clap = "*"
regex = "*"

[dev-dependencies]
byteorder = "*"
