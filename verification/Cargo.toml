[package]
name = "keyflow"
version = "0.1.0"
edition = "2021"
publish = false

[dependencies]
jsonwebtoken = { version = "=11.1.0", features = ["rust_crypto"] }
serde_json = "=1.0.151"
base64 = "=0.23.1"
rand = "=0.10.3"
subtle = "=2.6.1"
time = "=0.3.55"
serde = { version = "=1.0.229", features = ["derive"] }
axum = "=0.8.9"
axum-extra = { version = "=0.12.6", features = ["cookie"] }
oauth2 = "=5.0.0"
reqwest = { version = "=0.12.28", default-features = false, features = ["json", "rustls-tls"] }
sqlx = { version = "=0.8.6", default-features = false, features = ["runtime-tokio-rustls", "postgres", "uuid", "chrono", "migrate"] }
tokio = { version = "=1.53.2", features = ["macros", "rt-multi-thread", "net", "sync", "time"] }
tower = "=0.5.3"
tower-http = { version = "=0.7.1", features = ["cors", "set-header", "trace"] }
tracing = "=0.1.44"
tracing-subscriber = { version = "=0.3.23", features = ["env-filter", "fmt"] }
dotenv = "=0.15.0"
http = "=1.5.0"
uuid = { version = "=1.27.0", features = ["serde"] }
chrono = { version = "=0.4.45", features = ["serde"] }
thiserror = "=2.0.21"
