[package]
name = "mdblog"
version = "0.1.0"
edition = "2021"
publish = false

[dependencies]
chrono = "=0.4.45"
comrak = "=0.56.0"
dunce = "=1.0.5"
html-escape = "=0.2.15"
hyper = { version = "=0.14.32", features = ["full"] }
log = "=0.4.34"
quick-xml = "=0.42.0"
rand = "=0.8.8"
rss = { version = "=2.1.2", features = ["atom"] }
serde_yaml = "=0.9.34"
simple_logger = "=5.2.0"
tokio = { version = "=1.53.2", features = ["full"] }
url = "=2.5.8"
clap = { version = "=4.6.7", features = ["derive"] }
