[package]
name = "zerovec"
version = "0.1.0"
edition = "2021"
publish = false

[dependencies]
unicode-bidi = "0.3"
serde = { version = "1", features = ["derive"] }
displaydoc = { version = "0.2", default-features = false }
