[package]
name = "restaurant_orders"
version = "0.1.0"
edition = "2021"
publish = false

[dependencies]
rusqlite = { version = "*", features = ["bundled"] }
rand = "0.8"
rocket = { version = "0.5", features = ["json"] }
serde = { version = "*", features = ["derive"] }
