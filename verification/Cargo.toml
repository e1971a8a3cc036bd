[package]
name = "oj_tools"
version = "0.1.0"
edition = "2021"
publish = false

[dependencies]
chrono = "0.4"
regex = "1"
clap = { version = "4", features = ["derive"] }
serde = { version = "1", features = ["derive"] }
toml = "0.8"
owo-colors = "3"
arboard = "3"
path-calculate = "0.1"
prettydiff = "0.6"
promptly = "0.3"
reqwest = { version = "0.11", default-features = false, features = ["blocking", "rustls-tls"] }
run_script = "0.10"
sysinfo = "0.29"
