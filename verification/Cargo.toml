[package]
name = "finanalize"
version = "0.1.0"
edition = "2021"
publish = false

[dependencies]
serde = { version = "1", features = ["derive"] }
serde_json = "1"
rust_decimal = "1"
scraper = "*"
chrono = "0.4"
lopdf = "*"
pdf-extract = "*"
handlebars = "*"
jsonwebtoken = "9"
uuid = { version = "1", features = ["v4"] }
thiserror = "*"
derive_more = { version = "*", features = ["display", "from"] }
log = "0.4"
env_logger = { version = "*", default-features = false }
dotenvy = "*"
once_cell = "1"
async-trait = "0.1"
tokio = { version = "1", features = ["full"] }
futures-util = "0.3"
reqwest = { version = "*", default-features = false, features = ["json"] }
actix-web = "4"
actix-cors = "*"
argon2 = "*"
calamine = "*"
tempfile = "3"
