[package]
name = "blog"
version = "0.1.0"
edition = "2021"
publish = false

[dependencies]
actix-web = "4"
diesel = { version = "2", features = ["sqlite"] }
serde = { version = "1", features = ["derive"] }
