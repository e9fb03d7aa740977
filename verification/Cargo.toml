[package]
name = "korasi_cli"
version = "0.1.0"
edition = "2021"
publish = false

[dependencies]
anyhow = "1"
async-trait = "0.1"
aws-config = "1"
aws-types = "1"
base64 = "=0.22.1"
clap = { version = "4", default-features = false, features = ["std", "derive", "help", "usage"] }
ignore = "0.4"
inquire = { version = "0.7", default-features = false, features = ["crossterm"] }
petname = { version = "2", default-features = false, features = ["default-rng", "default-words"] }
reqwest = { version = "0.12", default-features = false, features = ["rustls-tls", "charset"] }
russh = "0.45"
russh-sftp = "~2.0"
shell-escape = "=0.1.5"
termion = "4"
tokio = { version = "1", features = ["rt-multi-thread", "macros", "io-util", "time"] }
tokio-fd = "0.3"
tracing = "0.1"
tracing-subscriber = { version = "0.3", default-features = false, features = ["fmt"] }
