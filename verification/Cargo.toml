[package]
name = "lan_mouse"
version = "0.1.0"
edition = "2021"
publish = false

[dependencies]
sha2 = "=0.11.1"
image = { version = "=0.25.10", default-features = false, features = ["png", "jpeg", "bmp"] }
async-trait = "=0.1.92"
futures = "0.3"
log = "0.4"
thiserror = "=2.0.21"
tokio = { version = "=1.54.1", features = ["full"] }
tokio-stream = "=0.1.19"
rustls = { version = "=0.23.46", default-features = false, features = ["std", "ring", "tls12"] }
tokio-rustls = { version = "=0.26.6", default-features = false, features = ["ring", "tls12"] }
webrtc-dtls = "=0.12.0"
wl-clipboard-rs = "=0.9.5"
ashpd = { version = "=0.13.13", features = ["clipboard", "input_capture"] }
clipboard-win = "=5.4.3"
