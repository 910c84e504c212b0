[package]
name = "sdkman_cli_native"
version = "0.1.0"
edition = "2021"
publish = false

[dependencies]
clap = { version = "4", features = ["derive"] }
colored = "2"
directories = "5"
fs_extra = "1"
reqwest = { version = "0.12", default-features = false, features = ["blocking", "rustls-tls"] }
symlink = "0.1"
urlencoding = "2"
