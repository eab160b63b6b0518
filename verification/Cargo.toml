[package]
name = "khonsubase"
version = "0.1.0"
edition = "2021"
publish = false

[dependencies]
anyhow = "1"
bcrypt = "=0.19.3"
chrono = "=0.4.45"
chrono-tz = "*"
comrak = { version = "=0.57.0", default-features = false }
dotenv = "*"
fluent-templates = "*"
futures = "*"
identicon-rs = "*"
maplit = "*"
once_cell = "*"
passwords = { version = "=3.1.19", features = ["common-password"] }
percent-encoding = "=2.3.2"
rocket = "0.5"
rocket_dyn_templates = { version = "0.2", features = ["tera"] }
serde = { version = "1", features = ["derive"] }
serde_json = "1"
sqlx = { version = "0.8", default-features = false, features = ["postgres", "runtime-tokio", "chrono", "uuid", "json"] }
tera = "1"
thiserror = "*"
tokio = { version = "1", features = ["time", "rt-multi-thread", "macros"] }
unic-langid = "=0.9.6"
uuid = { version = "=1.29.0", features = ["v4"] }
