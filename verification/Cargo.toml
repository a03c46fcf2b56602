[package]
name = "zarr_ls"
version = "0.1.0"
edition = "2021"
publish = false

[dependencies]
clap = { version = "*", features = ["derive"] }
indexmap = "*"
inquire = "*"
zarrs = "*"

[dev-dependencies]
tempfile = "*"
