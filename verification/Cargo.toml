[package]
name = "md_conv"
version = "0.1.0"
edition = "2021"
publish = false

[dependencies]
lightningcss = { version = "1.0.0-alpha.50", default-features = false }
handlebars = "*"
pulldown-cmark = "*"
ammonia = "*"
syntect = { version = "*", default-features = false, features = ["default-fancy"] }
slug = "*"
html-escape = "*"
gray_matter = "0.2"
serde = { version = "1", features = ["derive"] }
serde_json = "1"
serde_yaml = "0.9"
clap = { version = "4", features = ["derive", "env"] }
tokio = { version = "1", features = ["full"] }
tokio-util = "*"
futures = "0.3"
chromiumoxide = "*"
indicatif = "*"
notify = "*"
tempfile = "3"
tracing = "0.1"
tracing-subscriber = { version = "0.3", features = ["env-filter"] }
anyhow = "1"
thiserror = "*"
async-trait = "*"
once_cell = "1"
libc = "0.2"
winapi = { version = "0.3", features = ["fileapi", "winnt"] }
