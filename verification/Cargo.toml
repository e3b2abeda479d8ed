[package]
name = "readme_gen"
version = "0.1.0"
edition = "2021"
publish = false

[dependencies]
rss = "*"
reqwest = { version = "*", default-features = false, features = ["blocking", "json"] }
serde = { version = "*", features = ["derive"] }
tera = { version = "*", default-features = false }
clap = { version = "*", features = ["derive", "env"] }
chrono = "*"
