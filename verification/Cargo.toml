[package]
name = "clap_show"
version = "0.1.0"
edition = "2021"
publish = false

[dependencies]
clap = "4"
handlebars = "*"
serde = { version = "1", features = ["derive"] }
serde_derive = "1"
