[package]
name = "recipe_site"
version = "0.1.0"
edition = "2021"
publish = false

[dependencies]
comrak = { version = "*", default-features = false }
itertools = "*"
maud = "*"
serde_yaml = "*"
rocket = "0.5"
