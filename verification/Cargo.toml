[package]
name = "ews"
version = "0.1.0"
edition = "2021"
publish = false

[dependencies]
serde = { version = "=1.0.229", features = ["derive"] }
xml_struct = "=1.0.1"
quick-xml = { version = "=0.41.0", features = ["serialize"] }
time = { version = "=0.3.55", features = ["formatting", "parsing"] }
