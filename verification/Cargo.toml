[package]
name = "kazane_game_launcher"
version = "0.1.0"
edition = "2021"
publish = false

[dependencies]
sha2 = "=0.10.9"
hex = "=0.4.3"
base64 = "=0.22.1"
serde = { version = "=1.0.229", features = ["derive"] }
serde_json = "=1.0.154"
tokio = { version = "=1.54.1", features = ["full"] }
reqwest = { version = "=0.12.28", features = ["stream"] }
futures-util = "=0.3.34"
zip = { version = "=2.6.1", default-features = false, features = ["deflate"] }
tempfile = "=3.27.0"
fs2 = "=0.4.3"
nix = { version = "=0.29.0", features = ["signal", "process"] }
async-trait = "=0.1.92"
eframe = { version = "=0.37.0", default-features = false, features = ["glow", "default_fonts", "x11"] }
egui_commonmark = "=0.26.0"
