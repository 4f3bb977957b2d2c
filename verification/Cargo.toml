[package]
name = "yoinkx"
version = "0.1.0"
edition = "2021"
publish = false

[dependencies]
actix-files = "*"
actix-multipart = "*"
actix-web = "*"
anyhow = "*"
arboard = "*"
bytes = "*"
clap = { version = "*", features = ["derive"] }
config = "*"
derive_more = "*"
dotenvy = "*"
futures-core = "*"
futures-util = "*"
image = "*"
infer = "*"
mime = "*"
regex = "*"
serde = { version = "*", features = ["derive"] }
serde_derive = "*"
tempfile = "*"
thiserror = "*"
tokio = { version = "*", features = ["full"] }
tracing = "*"
tracing-actix-web = "*"
tracing-log = "*"
tracing-subscriber = "*"
