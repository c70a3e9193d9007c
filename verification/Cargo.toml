[package]
name = "epub_webify"
version = "0.1.0"
edition = "2021"
publish = false

[dependencies]
urlencoding = "=2.1.3"
path-clean = "=1.0.1"
pathdiff = "=0.2.3"
path-slash = "=0.2.1"
clap = { version = "=4.6.7", features = ["derive"] }
zip = { version = "=9.1.0", default-features = false, features = ["deflate"] }
quick-xml = { version = "=0.42.0", features = ["serialize"] }
serde = { version = "=1.0.229", features = ["derive"] }
thiserror = "=2.0.21"

[dev-dependencies]
regex = "=1.13.1"
lol_html = "*"
