[package]
name = "log_query"
version = "0.1.0"
edition = "2021"
publish = false

[dependencies]
regex = "1"
serde = { version = "1", features = ["derive"] }
serde_json = "1"
handlebars = "3"
structopt = "0.3"
