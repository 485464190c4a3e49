[package]
name = "ringer"
version = "0.1.0"
edition = "2021"
publish = false

[dependencies]
chrono = "0.4"
chrono-humanize = "0.2"
url = "2"
pwhash = "1"
rand = "0.8"
serde = { version = "1", features = ["derive"] }
serde_json = "1"
curl = "0.4"
diesel = { version = "2", features = ["postgres", "chrono", "serde_json"] }
dotenv = "0.15"
sharp_pencil = "*"
futures = "0.1"
futures-cpupool = "0.1"
lazy_static = "1"
