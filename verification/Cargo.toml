[package]
name = "bnuystore"
version = "0.1.0"
edition = "2021"
publish = false

[dependencies]
async-trait = "0.1"
axum = "0.7"
clap = { version = "4", features = ["derive"] }
http = "1"
mysql_async = "*"
mysql_common = "*"
russh = "*"
russh-sftp = "*"
serde = { version = "1", features = ["derive"] }
serde_json = "1"
shlex = "1"
ssh-key = "*"
tokio = { version = "1", features = ["full"] }
toml = "*"
tracing = "0.1"
tracing-subscriber = { version = "0.3", features = ["env-filter"] }
uuid = { version = "1", features = ["v7"] }
