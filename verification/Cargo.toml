[package]
name = "function_layer"
version = "0.1.0"
edition = "2021"
publish = false

[dependencies]
dotenv = "=0.15.0"
env_logger = { version = "=0.10.2", default-features = false }
ethers = { version = "=2.0.14", default-features = false, features = ["rustls"] }
eyre = "=0.6.14"
k256 = "=0.13.4"
log = "=0.4.34"
reqwest = { version = "=0.11.27", default-features = false, features = ["json", "rustls-tls"] }
serde_json = "=1.0.154"
tempfile = "=3.27.0"
tokio = { version = "=1.54.1", features = ["macros", "rt-multi-thread", "time", "fs"] }
