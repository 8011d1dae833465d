[package]
name = "m_guitar"
version = "0.1.0"
edition = "2021"
publish = false

[dependencies]
roxmltree = "*"
serde = { version = "*", features = ["derive"] }
serde_json = "*"
toml = "*"
dirs = "*"
log = "*"
libc = "*"
eframe = { version = "=0.37.0", default-features = false, features = ["default_fonts", "glow", "x11"] }
cpal = "*"
