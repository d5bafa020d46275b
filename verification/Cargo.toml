[package]
name = "encode_stream"
version = "0.1.0"
edition = "2021"
publish = false

[dependencies]
fdk-aac = "=0.8.0"
openh264 = "=0.9.8"
