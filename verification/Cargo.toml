[package]
name = "vdovitsa"
version = "0.1.0"
edition = "2021"
publish = false

[dependencies]
futures = "=0.3.34"
reqwest = "=0.12.28"
scraper = "=0.29.0"
tokio = { version = "=1.54.1", features = ["macros", "rt-multi-thread", "sync"] }
url = "=2.5.8"
