[package]
name = "chip8"
version = "0.1.0"
edition = "2021"
publish = false

[dependencies]
anyhow = "1"
dotenvy = "0.15"
lazy_static = "1"
log = "0.4"
rand = "0.8"
sdl2 = { version = "0.37", features = ["image"] }
serde = { version = "1", features = ["derive"] }
serde_derive = "1"
serde_json = "1"
serde_variant = "0.1"
serde_yaml = "0.9"
tera = { version = "1", default-features = false }
thiserror = "1"
tokio = { version = "1", features = ["macros", "rt-multi-thread"] }
tracing = "0.1"
uuid = "1"
