[package]
name = "entrusted"
version = "0.1.0"
edition = "2021"
publish = false

[dependencies]
zip = { version = "=2.6.1", default-features = false, features = ["deflate"] }
cfb = "=0.16.0"
which = "=8.0.6"
gettext = "=0.4.0"
fluent-langneg = "=0.14.2"
unic-langid = "=0.9.6"
serde = { version = "=1.0.229", features = ["derive"] }
serde_json = "=1.0.154"
toml = "=1.1.8"
dirs = "=7.0.0"
locale_config = "=0.3.0"
uuid = { version = "=1.29.0", features = ["v4"] }
infer = "*"
file-format = "*"
base64-lib = "*"
bs58 = "*"
percent-encoding = "*"
semver = "1"
