[package]
name = "api_polyorbite"
version = "0.1.0"
edition = "2021"
publish = false

[dependencies]
axum = "=0.7.9"
base64 = "=0.22.1"
chrono = "=0.4.45"
dotenv = "=0.15.0"
jsonwebtoken = "=9.3.1"
ldap3 = { version = "=0.11.5", default-features = false }
rand = "=0.8.8"
serde = { version = "=1.0.229", features = ["derive"] }
serde_json = "=1.0.154"
sha1 = "=0.10.7"
tokio = { version = "=1.54.1", features = ["full"] }
tower-http = { version = "=0.5.2", features = ["cors", "trace"] }
tracing = "=0.1.44"
tracing-subscriber = "=0.3.23"
utoipa = { version = "=4.2.3", features = ["axum_extras"] }
utoipa-swagger-ui = { version = "=6.0.0", features = ["axum"] }

[dev-dependencies]
regex = "=1.13.1"
