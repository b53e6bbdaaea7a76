[package]
name = "quiz_solver"
version = "0.1.0"
edition = "2021"
publish = false

[dependencies]
anyhow = "*"
thirtyfour = "*"
tokio = { version = "*", features = ["macros", "rt-multi-thread", "time"] }
