[package]
name = "oxidize"
version = "0.1.0"
edition = "2021"
publish = false

[dependencies]
anyhow = "1"
clap = { version = "4", features = ["derive"] }
gio = "*"
glib = "*"
kdl = "6"
libc = "0.2"
toml = "0.8"
