[package]
name = "calc"
version = "0.1.0"
edition = "2021"
publish = false

[dependencies]
regex = "=1.13.1"
rustyline = "=18.0.1"
ureq = { version = "=3.4.2", default-features = false }
quick-xml = { version = "=0.42.0", features = ["serialize"] }
serde = { version = "=1.0.229", features = ["derive"] }
chrono = { version = "=0.4.45", features = ["serde"] }
directories = "=6.0.0"
thiserror = "=2.0.21"
