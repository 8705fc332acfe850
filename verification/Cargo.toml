[package]
name = "mermansi"
version = "0.1.0"
edition = "2021"
publish = false

[dependencies]
merman-core = { version = "=0.8.0", features = ["all-diagrams"] }
merman-ascii = { version = "=0.8.0", features = ["all-diagrams"] }
chrono = { version = "0.4", default-features = false, features = ["alloc"] }
serde = { version = "=1.0.229", features = ["derive"] }
serde_json = "=1.0.154"
thiserror = "=2.0.21"
unicode-segmentation = "=1.13.3"
unicode-width = "=0.2.3"
