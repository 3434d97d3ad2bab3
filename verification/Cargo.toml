[package]
name = "feeds_to_instapaper"
version = "0.1.0"
edition = "2021"
publish = false

[dependencies]
anyhow = "=1.0.104"
atom_syndication = "=0.12.10"
atty = "=0.2.14"
clap = { version = "=4.6.7", features = ["derive"] }
csv = "=1.4.0"
dialoguer = "=0.12.0"
reqwest = { version = "=0.13.5", default-features = false, features = ["blocking", "form"] }
rss = "=2.1.2"
serde = { version = "=1.0.229", features = ["derive"] }
serde_yaml = "=0.9.34"
shellexpand = "=3.1.2"
url = "=2.5.8"
yansi = "=1.0.1"
