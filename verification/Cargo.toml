[package]
name = "vmo2"
version = "0.1.0"
edition = "2021"
publish = false

[dependencies]
clap = { version = "4", features = ["derive"] }
pest = "2"
pest_derive = "2"
quickcheck = "1"
rand = "0.8"
