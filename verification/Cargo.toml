[package]
name = "scrivener"
version = "0.1.0"
edition = "2021"
publish = false

[dependencies]
confy = "*"
serde = { version = "*", features = ["derive"] }
structopt = "*"
scrawl = "*"
prettytable-rs = "*"

[dev-dependencies]
tempfile = "*"
