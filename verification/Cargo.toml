[package]
name = "rehuman"
version = "0.1.1"
edition = "2021"
publish = false

[dependencies]
icu_properties = "2"
deunicode = "1"
unicode-normalization = "0.1"
unicode-segmentation = "1"
anyhow = "1"
clap = { version = "4", features = ["derive"] }
serde = { version = "1", features = ["derive"] }
serde_json = "1"
toml = "0.8"
directories = "5"
tempfile = "3"
