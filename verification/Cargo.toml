[package]
name = "two_key_core"
version = "0.1.0"
edition = "2021"
publish = false

[dependencies]
serde = { version = "=1.0.229", features = ["derive"] }
serde_json = { version = "=1.0.154", features = ["preserve_order"] }
base64 = "=0.22.1"
p256 = { version = "=0.13.2", features = ["ecdsa", "pkcs8", "pem"] }
sha2 = "=0.10.9"
ed25519-dalek = { version = "=2.2.0", features = ["pkcs8", "pem", "rand_core"] }
pkcs8 = { version = "=0.10.2", features = ["pem"] }
rand = "=0.8.8"
rcgen = { version = "=0.13.2", default-features = false, features = ["pem", "ring", "x509-parser"] }
rustls-pemfile = "=2.2.0"
rustls-pki-types = "=1.15.1"
rustls = { version = "=0.23.46", default-features = false, features = ["ring", "std", "tls12"] }
time = { version = "=0.3.55", features = ["formatting"] }
thiserror = "=1.0.69"
ureq = { version = "=2.12.1", features = ["json"] }
reqwest = { version = "=0.12.28", default-features = false, features = ["json", "rustls-tls"] }
tokio = { version = "=1.54.1", features = ["macros", "rt-multi-thread", "time", "signal"] }
async-trait = "=0.1.92"
keyring = "=3.6.3"
directories = "=5.0.1"
clap = { version = "=4.6.7", features = ["derive", "env"] }
console = "=0.15.11"
dialoguer = "=0.11.0"
