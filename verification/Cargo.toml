[package]
name = "zpool_exporter"
version = "0.1.0"
edition = "2021"
publish = false

[dependencies]
actix-web = { version = "4", default-features = false, features = ["macros"] }
chrono = "0.4"
clap = { version = "4", features = ["derive"] }
fern = "*"
libzetta = "*"
log = "0.4"
prometheus = "0.13"
