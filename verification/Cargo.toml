[package]
name = "shlog"
version = "0.1.0"
edition = "2021"
publish = false

[dependencies]
drm = "=0.14.1"
evdev = "=0.12.2"
font8x8 = "=0.3.1"
gbm = { version = "=0.18.0", default-features = false, features = ["drm-support"] }
gbm-sys = "=0.4.0"
glow = "=0.14.2"
khronos-egl = { version = "=6.0.0", features = ["static"] }
libc = "=0.2.191"
serde = { version = "=1.0.229", features = ["derive"] }
serde_json = "=1.0.154"
toml = "=0.8.23"
wasm-bindgen = "=0.2.130"
web-sys = { version = "=0.3.107", features = ["Document", "Element", "Event", "EventTarget", "HtmlCanvasElement", "KeyboardEvent", "WebGl2RenderingContext", "Window", "console"] }
