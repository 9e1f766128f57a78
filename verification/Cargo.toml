[package]
name = "embedding_pipeline"
version = "0.1.0"
edition = "2021"
publish = false

[dependencies]
anyhow = "1"
axum = "0.7"
clap = { version = "4", features = ["derive"] }
cxx = "1"
rayon = "1"
serde = { version = "1", features = ["derive"] }
tokenizers = "0.20"
tokio = { version = "1", features = ["full"] }
tower = { version = "0.4", features = ["limit"] }
