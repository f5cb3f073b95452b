[package]
name = "jpgfromraw"
version = "0.1.0"
edition = "2021"
publish = false

[dependencies]
anyhow = "1"
clap = { version = "4", features = ["derive"] }
indicatif = "0.17"
memchr = "2"
memmap2 = "0.9"
tokio = { version = "1", features = ["rt-multi-thread", "macros", "fs", "sync"] }
