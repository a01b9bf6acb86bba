[package]
name = "sdef"
version = "0.3.0"
edition = "2021"
publish = false

[dependencies]
quick-xml = { version = "=0.37.5", features = ["serialize"] }
thiserror = "=2.0.21"
