[package]
name = "whatfeatures"
version = "0.1.0"
edition = "2021"
publish = false

[dependencies]
anyhow = "=1.0.104"
attohttpc = { version = "*", default-features = false }
cargo_metadata = "*"
crate_version_parse = "=0.2.0"
directories-next = "*"
flate2 = "*"
home = "*"
pico-args = "*"
serde = { version = "*", features = ["derive"] }
serde_json = "*"
tar = "*"
time = { version = "*", features = ["parsing"] }
yansi = "*"
