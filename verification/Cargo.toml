[package]
name = "truckersmp"
version = "0.1.0"
edition = "2021"
publish = false

[dependencies]
clap = { version = "4", features = ["derive", "cargo"] }
color-print = "*"
comfy-table = "*"
dirs = "*"
futures-util = "0.3"
indicatif = "*"
md5 = "*"
nu-ansi-term = "*"
once_cell = "1"
rand = "*"
reqwest = { version = "0.12", default-features = false, features = ["json", "stream", "rustls-tls"] }
serde = { version = "1", features = ["derive"] }
steamworks = "*"
surge-ping = "*"
sysinfo = "*"
thiserror = "*"
tokio = { version = "1", features = ["full"] }
