[package]
name = "gb_presenter"
version = "0.1.0"
edition = "2021"
publish = false

[dependencies]
anyhow = "1"
clap = "4"
csscolorparser = { version = "0.6", features = ["serde"] }
encoding_rs = "=0.8.42"
ffmpeg-next = "6"
flate2 = "=1.1.10"
glob = "0.3"
image = "0.24"
indicatif = "0.17"
ringbuf = "=0.3.3"
serde = { version = "1", features = ["derive"] }
tiny-skia = "0.11"
toml = "0.8"
