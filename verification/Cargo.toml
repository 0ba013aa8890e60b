[package]
name = "plugkill"
version = "0.1.0"
edition = "2021"
publish = false

[dependencies]
async-channel = "2"
base64 = "=0.22.1"
clap = { version = "4", features = ["derive"] }
ed25519-dalek = { version = "=2.2.0", features = ["rand_core"] }
env_logger = "0.11"
gtk4 = "*"
gtk4-layer-shell = "*"
hex = "0.4"
ksni = { version = "=0.3.7", features = ["blocking"] }
libc = "0.2"
log = "0.4"
nix = { version = "0.29", features = ["ioctl", "net"] }
rand = "=0.8.8"
serde = { version = "1", features = ["derive"] }
serde_json = "=1.0.154"
signal-hook = "0.3"
toml = { version = "=0.8.23", features = ["preserve_order"] }
zbus = "5"

[dev-dependencies]
tempfile = "3"
