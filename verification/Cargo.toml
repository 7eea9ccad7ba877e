[package]
name = "ugly"
version = "0.1.0"
edition = "2021"
publish = false

[dependencies]
anyhow = "1"
bytemuck = { version = "1", features = ["derive"] }
clap = { version = "4", features = ["derive"] }
css-color-parser = "0.1"
image = { version = "0.24", default-features = false, features = ["png"] }
itertools = "0.12"
pollster = "0.3"
ron = "0.8"
sdl2 = { version = "0.36", features = ["image"] }
serde = { version = "1", features = ["derive"] }
serde_with = "3"
thiserror = "1"
toml = "0.8"
