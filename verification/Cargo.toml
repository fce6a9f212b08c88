[package]
name = "avgcol"
version = "0.1.0"
edition = "2021"
publish = false

[dependencies]
base64 = "=0.13.1"
bytes = "=1.12.1"
image = { version = "=0.24.9", default-features = false, features = ["bmp", "gif", "jpeg", "png"] }
jpeg-decoder = { version = "=0.3.2", default-features = false, features = ["platform_independent"] }
reqwest = "=0.11.27"
thiserror = "=1.0.69"
