[package]
name = "omn"
version = "0.1.0"
edition = "2021"
publish = false

[dependencies]
actix-web = { version = "4", default-features = false, features = ["macros"] }
dotenv = "0.15"
env_logger = "0.11"
log = "0.4"
