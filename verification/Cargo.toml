[package]
name = "yar"
version = "0.1.0"
edition = "2021"
publish = false

[dependencies]
base64 = "=0.22.1"
chrono = "=0.4.45"
clap = { version = "=4.6.7", features = ["derive"] }
comrak = "=0.56.0"
hyper = { version = "=1.12.0", features = ["full"] }
hyper-staticfile = "=0.10.1"
hyper-util = { version = "=0.1.21", features = ["full"] }
ignore = "=0.4.33"
minify-html = "=0.16.5"
notify = "=8.2.0"
regex = "=1.13.1"
reqwest = { version = "=0.12.28", default-features = false, features = ["blocking", "rustls-tls"] }
rsass = "=0.29.2"
rusqlite = { version = "=0.40.2", features = ["bundled"] }
seahash = "=4.1.0"
serde = { version = "=1.0.229", features = ["derive"] }
serde_json = "=1.0.151"
tempfile = "=3.27.0"
tera = "=2.4.0"
tokio = { version = "=1.53.2", features = ["full"] }
toml = "=1.1.6"
tower = { version = "=0.5.3", features = ["util"] }
tower-livereload = "=0.10.3"
xmltree = "=0.12.0"
