[package]
name = "osus_proxy"
version = "0.1.0"
edition = "2021"
publish = false

[dependencies]
bytebuffer = "2"
color-eyre = "0.6"
eframe = { version = "0.22", default-features = false, features = ["default_fonts", "glow"] }
egui = "0.22"
http = "0.2"
hyper = { version = "0.14", features = ["full"] }
hyper-rustls = "0.24"
reqwest = { version = "0.11", default-features = false, features = ["blocking", "rustls-tls"] }
rhexdump = "*"
rustls = "0.21"
rustls-pemfile = "1"
sha256 = "1"
strum = { version = "0.25", features = ["derive"] }
tokio = { version = "1", features = ["full"] }
tracing = "0.1"
tracing-appender = "0.2"
tracing-subscriber = { version = "0.3", features = ["env-filter"] }
