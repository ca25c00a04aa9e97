[package]
name = "barrel"
version = "0.1.0"
edition = "2021"
publish = false

[dependencies]
itoa = "1"
thiserror = "*"
image = { version = "*", default-features = false, features = ["gif"] }
v4l = "*"
zune-jpeg = "*"
captrs = "*"
