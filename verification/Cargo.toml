[package]
name = "extract_xml_rechnung"
version = "0.1.0"
edition = "2021"
publish = false

[dependencies]
lopdf = "*"
actix-web = "4"
actix-multipart = "*"
futures-util = "0.3"
serde = { version = "1", features = ["derive"] }
serde_json = "1"
