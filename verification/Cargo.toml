[package]
name = "kg_explorer"
version = "0.1.0"
edition = "2021"
publish = false

[dependencies]
petgraph = "=0.8.3"
rand = "=0.9.5"
regex = "=1.13.1"
percent-encoding = "=2.3.2"
oxigraph = { version = "=0.4.11", default-features = false }
serde_json = "=1.0.154"
rayon = "=1.12.0"
clap = { version = "=4.6.7", features = ["derive"] }
dotenv = "=0.15.0"
flate2 = "=1.1.10"
reqwest = { version = "=0.12.28", default-features = false, features = ["blocking"] }
tract-onnx = "=0.23.9"
