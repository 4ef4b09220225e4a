[package]
name = "localdev_proxy"
version = "0.1.0"
edition = "2021"
publish = false

[dependencies]
regex = "1"
clap = { version = "3", features = ["derive"] }
clap_complete = "3"
colored = "2"
webbrowser = "0.5"
