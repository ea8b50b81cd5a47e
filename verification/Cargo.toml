[package]
name = "snask"
version = "0.1.0"
edition = "2021"
publish = false

[dependencies]
bcrypt = "*"
uuid = { version = "*", features = ["v4"] }
url = "*"
clap = { version = "*", features = ["derive"] }
reqwest = { version = "*", default-features = false, features = ["blocking"] }
git2 = { version = "*", default-features = false }
directories = "*"
rouille = "*"
rusqlite = { version = "*", features = ["bundled"] }
chrono = "*"
lazy_static = "*"
