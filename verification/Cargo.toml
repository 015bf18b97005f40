[package]
name = "ktouchbar"
version = "0.1.0"
edition = "2021"
publish = false

[dependencies]
anyhow = "=1.0.104"
cairo-rs = { version = "=0.22.9", features = ["png", "freetype"] }
chrono = { version = "=0.4.45", features = ["unstable-locales"] }
drm = "=0.11.1"
fontconfig = "=0.11.0"
freedesktop = "=0.0.3"
freetype-rs = "=0.38.0"
input = "=0.8.3"
input-linux = { version = "=0.6.1", features = ["serde"] }
input-linux-sys = "=0.8.2"
libc = "=0.2.191"
librsvg-rebind = "=0.3.0"
nix = { version = "=0.27.1", features = ["signal", "inotify", "event"] }
serde = { version = "=1.0.229", features = ["derive"] }
toml = "=0.8.2"
zbus = "=3.15.2"
