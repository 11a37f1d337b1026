[package]
name = "chat_core"
version = "0.1.0"
edition = "2021"
publish = false

[dependencies]
actix = "*"
actix-web = "4"
actix-web-actors = "4"
bcrypt = "*"
chrono = { version = "*", features = ["serde"] }
dotenv = "*"
env_logger = "*"
futures-util = "*"
jsonwebtoken = { version = "*", features = ["rust_crypto"] }
serde = { version = "*", features = ["derive"] }
serde_json = "*"
sqlx = { version = "0.7", default-features = false, features = ["postgres", "runtime-tokio-rustls", "macros", "uuid", "chrono"] }
uuid = { version = "1", features = ["serde"] }
