[package]
name = "pavex_session"
version = "0.1.0"
edition = "2021"
publish = false

[dependencies]
getrandom = "=0.4.3"
minijinja = { version = "=2.24.0", features = ["custom_syntax"] }
serde = { version = "=1.0.229", features = ["derive"] }
