[package]
name = "mds"
version = "0.15.3"
edition = "2021"
publish = false

[dependencies]
regex = "1"
colored = "2"
comrak = { version = "0.18", default-features = false }
rand = "0.8"
chrono = "0.4"
kdl = "4"
miette = "5"
rgb = { version = "0.8", features = ["serde"] }
serde_json = "1"
tuikit = "0.5"
syntect = { version = "5", default-features = false, features = ["default-fancy"] }
skim = "0.10"
anyhow = "1"
clap = { version = "4", features = ["cargo"] }
tokio = { version = "1", features = ["full"] }
sqlx = { version = "0.6", features = ["sqlite", "runtime-tokio-rustls", "migrate"] }
sql-builder = "3"
duct = "0.13"
opener = "0.6"
env-substitute = "*"
bidir_termtree = "*"
comfy-table = "*"
inquire = "*"
xdg = "2"
