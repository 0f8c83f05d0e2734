[package]
name = "bili_subtitle_downloader"
version = "0.1.0"
edition = "2021"
publish = false

[dependencies]
anyhow = "1"
md5 = "0.7"
serde_json = "1"
reqwest = { version = "0.12", default-features = false, features = ["blocking", "cookies", "rustls-tls"] }
reqwest_cookie_store = "0.8"
cookie_store = "0.21"
html2text = "*"
qrcode = { version = "*", default-features = false }
zhihu_sign = "*"
webbrowser = "*"
arboard = { version = "*", default-features = false }
