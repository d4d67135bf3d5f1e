[package]
name = "cloudencryptor"
version = "0.1.0"
edition = "2021"
publish = false

[dependencies]
aes-gcm = "0.10"
md5 = "0.7"
onedrive-api = "*"
reqwest = "*"
rouille = "3"
tokio = { version = "1", features = ["macros", "rt-multi-thread"] }
xdg-user = "*"
