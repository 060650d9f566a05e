[package]
name = "music_controller"
version = "0.1.0"
edition = "2021"
publish = false

[dependencies]
base64 = "0.22"
serde_json = "1"
embedded-graphics = "0.8"
mipidsi = "0.7"
display-interface-spi = "0.4"
trezor-tjpgdec = "*"
esp-idf-svc = "*"
