[package]
name = "cameras"
version = "0.1.0"
edition = "2021"
publish = false

[dependencies]
bytes = "=1.12.1"
chrono = { version = "=0.4.45", default-features = false, features = ["clock", "std"] }
crossbeam-channel = "=0.5.17"
dioxus = { version = "*", default-features = false, features = ["hooks", "html", "macro", "signals"] }
eframe = { version = "=0.37.0", default-features = false, features = ["glow", "x11"] }
egui = { version = "=0.37.0", default-features = false }
futures-timer = "3"
futures-util = "=0.3.34"
image = { version = "=0.25.10", default-features = false, features = ["png"] }
ipnet = "=2.12.2"
retina = "=0.4.21"
thiserror = "2"
tokio = { version = "=1.54.1", features = ["io-util", "net", "rt", "rt-multi-thread", "sync", "time"] }
url = "=2.5.8"
v4l = "=0.14.0"
zune-jpeg = { version = "=0.4.21", default-features = false, features = ["std"] }
