[package]
name = "e57_to_las"
version = "0.1.0"
edition = "2021"
publish = false

[dependencies]
anyhow = "*"
clap = { version = "*", features = ["derive"] }
e57 = "*"
indicatif = "*"
las = "*"
rayon = "*"
serde = "*"
serde_json = "*"
uuid = "*"
