[package]
name = "deepfilter_audio"
version = "0.1.0"
edition = "2021"
publish = false

[dependencies]
flate2 = "1.1"
tar = "0.4"
rust-ini = "0.21"
hound = "3.5"
anyhow = "1"
log = "0.4"
env_logger = { version = "0.11", default-features = false }
parking_lot = "0.12"
num-complex = "0.4"
cpal = "=0.15.3"
ort = { version = "2.0.0-rc.15", default-features = false, features = ["std", "ndarray", "load-dynamic"] }
deep_filter = { version = "0.2.5", default-features = false }
oboe = "0.6"
android_logger = "0.13"
