[package]
name = "xr_chaperone"
version = "0.1.0"
edition = "2021"
publish = false

[dependencies]
anyhow = "=1.0.104"
ash = "=0.38.0"
bytemuck = { version = "=1.25.2", features = ["derive"] }
glam = { version = "=0.30.10", features = ["bytemuck"] }
iced = { version = "=0.14.0", default-features = false, features = ["canvas", "tiny-skia", "x11", "tokio"] }
libmonado = "=1.6.0"
mint = "=0.5.9"
openxr = "=0.19.0"
openxr-sys = "=0.11.0"
parking_lot = "=0.12.5"
serde = { version = "=1.0.229", features = ["derive"] }
toml = "=1.1.8"
tracing = "=0.1.44"
tracing-subscriber = { version = "=0.3.23", default-features = false, features = ["fmt", "std", "env-filter"] }
xdg = "=3.0.0"
