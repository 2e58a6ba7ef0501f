[package]
name = "cantabile"
version = "0.1.0"
edition = "2021"
publish = false

[dependencies]
audiotags = "*"
rusqlite = "*"
serde = { version = "*", features = ["derive"] }
thiserror = "*"
