[package]
name = "parcel_extractor"
version = "0.1.0"
edition = "2021"
publish = false

[dependencies]
csv = "*"
serde = { version = "*", features = ["derive"] }
serde_json = "*"
thirtyfour = "*"
tokio = { version = "*", features = ["macros", "rt-multi-thread"] }
