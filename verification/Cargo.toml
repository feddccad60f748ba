[package]
name = "jade"
version = "0.1.0"
edition = "2021"
publish = false

[dependencies]
sha2 = "*"
nix-base32 = "*"
urlencoding = "*"
reqwest = { version = "*", default-features = false, features = ["blocking", "rustls-tls"] }
toml = "*"
serde = { version = "*", features = ["derive"] }
serde_derive = "*"
serde_json = "*"
clap = { version = "*", features = ["derive"] }
zip-extensions = "*"
copy_dir = "*"
chrono = "*"
current_platform = "*"
