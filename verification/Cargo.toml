[package]
name = "tyt"
version = "0.1.0"
edition = "2021"
publish = false

[dependencies]
chrono = "0.4"
serde = { version = "1", features = ["derive"] }
serde_yaml = "0.8"
quick-xml = { version = "0.22", features = ["serialize"] }
reqwest = { version = "0.11", default-features = false, features = ["blocking", "rustls-tls"] }
threadpool = "1.8"
dirs-next = "2.0"
termion = "1.5"
tui = { version = "0.14", default-features = false, features = ["termion"] }
