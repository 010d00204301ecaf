[package]
name = "jam"
version = "0.1.0"
edition = "2021"
publish = false

[dependencies]
rand = "0.9"
serde_json = "1"
tungstenite = { version = "0.26", features = ["rustls-tls-webpki-roots"] }
rustls = { version = "0.23", default-features = false, features = ["ring", "std"] }
ureq = { version = "2", default-features = false, features = ["json", "tls"] }
zbus = { version = "5.8", default-features = false, features = ["async-io", "blocking-api"] }
eframe = { version = "0.29", default-features = false, features = ["glow", "x11"] }
egui = { version = "0.29", default-features = false }
