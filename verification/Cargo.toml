[package]
name = "volumesetup"
version = "0.1.0"
edition = "2021"
publish = false

[dependencies]
aargvark = { version = "=0.13.0", features = ["serde_json"] }
card-backend-pcsc = "=0.5.2"
loga = "=0.5.5"
openpgp-card = "=0.7.0"
openpgp-card-rpgp = "=0.8.1"
path-absolutize = "=3.1.1"
pcsc = "=2.9.0"
pgp = "=0.20.0"
rand = "=0.8.8"
rustix = { version = "=1.1.5", features = ["fs", "mount"] }
schemars = "=1.2.3"
sequoia-openpgp = { version = "=2.4.2", default-features = false, features = ["crypto-rust", "allow-experimental-crypto", "allow-variable-time-crypto"] }
serde = { version = "=1.0.229", features = ["derive"] }
serde_json = "=1.0.154"
