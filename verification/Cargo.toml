[package]
name = "yumpu_dl"
version = "0.1.0"
edition = "2021"
publish = false

[dependencies]
regex = "1"
reqwest = { version = "0.11", features = ["json"] }
serde = { version = "1", features = ["derive"] }
tokio = { version = "1", features = ["macros", "rt-multi-thread"] }
printpdf = { version = "0.5", features = ["embedded_images"] }
