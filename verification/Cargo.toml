[package]
name = "nn_engine"
version = "0.1.0"
edition = "2021"
publish = false

[dependencies]
rustc_apfloat = "=0.2.3+llvm-462a31f5a5ab"
libm = "=0.2.16"
bytemuck = "=1.25.2"
rand = "=0.8.8"
serde = { version = "=1.0.229", features = ["derive"] }
serde_json = { version = "=1.0.151", features = ["float_roundtrip"] }
image = { version = "=0.25.10", default-features = false, features = ["png", "jpeg"] }
