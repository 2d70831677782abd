[package]
name = "kaiser_db"
version = "0.1.0"
edition = "2021"
publish = false

[dependencies]
anyhow = "1"
bytemuck = { version = "1", features = ["derive"] }
glyphon = "*"
pollster = "*"
sqlx = { version = "0.8", default-features = false, features = ["runtime-tokio", "postgres", "chrono", "uuid", "time", "bigdecimal", "json"] }
tokio = { version = "1", features = ["rt-multi-thread", "macros"] }
wgpu = "*"
winit = { version = "0.30", default-features = false, features = ["rwh_06", "x11"] }
