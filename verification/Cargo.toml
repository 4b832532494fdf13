[package]
name = "finescale"
version = "0.1.0"
edition = "2021"
publish = false

[dependencies]
petgraph = "0.6"
tinyvec = "1"
regex = "1"
tinystr = "*"
enumflags2 = "0.7"
anyhow = "1"
ron = "*"
serde = { version = "1", features = ["derive"] }
write-json = "*"
log = "0.4"
env_logger = "*"
url = "2"
urlencoding = "2"
html-escape = "*"
tl = "*"
ureq = "2"
rate_limit = "*"
