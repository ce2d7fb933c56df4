[package]
name = "ducklake-orm"
version = "0.1.0"
edition = "2021"
publish = false

[dependencies]
duckdb = { version = "*", features = ["r2d2"] }
r2d2 = "0.8"
serde = { version = "1", features = ["derive"] }
toml = "*"
thiserror = "*"
