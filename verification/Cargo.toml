[package]
name = "wallerd"
version = "0.1.0"
edition = "2021"
publish = false

[dependencies]
serde = { version = "=1.0.229", features = ["derive"] }
serde_json = "=1.0.154"
toml = "=0.8.23"
log = "=0.4.35"
env_logger = "=0.11.11"
clap = { version = "=4.6.7", features = ["derive"] }
clap_complete = "=4.6.11"
clap_mangen = "=0.2.33"
libc = "=0.2.191"
image = { version = "=0.25.10", default-features = false, features = ["png", "jpeg", "webp", "bmp"] }
glow = "=0.16.0"
khronos-egl = { version = "=6.0.0", features = ["dynamic"] }
winit = { version = "=0.30.13", default-features = false, features = ["wayland", "wayland-dlopen", "rwh_06"] }
smithay-client-toolkit = { version = "=0.19.2", default-features = false, features = ["calloop"] }
calloop = "=0.13.0"
calloop-wayland-source = "=0.3.0"
