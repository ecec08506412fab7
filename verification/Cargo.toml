[package]
name = "volt"
version = "0.1.0"
edition = "2021"
publish = false

[dependencies]
async-trait = "0.1"
cacache = { version = "*", default-features = false, features = ["tokio-runtime"] }
clap = { version = "4", features = ["derive"] }
colored = "*"
futures = "0.3"
git-config = "0.1"
indicatif = "*"
junction = "*"
libdeflater = "=1.26.1"
miette = "5"
reqwest = { version = "0.12", default-features = false, features = ["rustls-tls"] }
serde_json = "=1.0.154"
ssri = "=9.2.0"
tokio = { version = "1", features = ["rt-multi-thread", "macros", "fs"] }
winapi = { version = "0.3", features = ["consoleapi", "errhandlingapi", "fileapi", "handleapi", "winnt"] }
