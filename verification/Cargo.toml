[package]
name = "anime_games_proxy"
version = "0.1.0"
edition = "2021"
publish = false

[dependencies]
clap = { version = "=4.6.7", features = ["derive"] }
dialoguer = "0.11"
dirs = "5"
hex = "=0.4.3"
hudsucker = { version = "=0.22.0", features = ["rustls-client", "rcgen-ca"] }
libc = "0.2"
openssl = "=0.10.81"
rcgen = { version = "=0.13.2", features = ["x509-parser"] }
reqwest = { version = "0.11", features = ["json"] }
rustls-pemfile = "=1.0.4"
serde = { version = "1", features = ["derive"] }
serde_json = "1"
tempfile = "3"
tokio = { version = "1", features = ["full"] }
tracing = "0.1"
tracing-subscriber = "0.3"
zip = { version = "0.6", default-features = false, features = ["deflate"] }
