[package]
name = "nix_init"
version = "0.1.0"
edition = "2021"
publish = false

[dependencies]
anyhow = "=1.0.104"
askalono = "=0.5.0"
bstr = "=1.13.1"
clap = { version = "=4.6.7", features = ["derive"] }
once_cell = "=1.21.4"
reqwest = { version = "=0.11.27", default-features = false, features = ["json", "rustls-tls"] }
rustc-hash = "=1.1.0"
rustyline = { version = "=11.0.0", features = ["derive", "with-fuzzy"] }
serde = { version = "=1.0.229", features = ["derive"] }
serde_json = "=1.0.154"
tokio = { version = "=1.54.1", features = ["macros", "process", "rt-multi-thread"] }
url = "=2.5.8"
