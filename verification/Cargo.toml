[package]
name = "task_board"
version = "0.1.0"
edition = "2021"
publish = false

[dependencies]
axum = "=0.7.9"
bcrypt = "=0.15.1"
chrono = { version = "=0.4.45", features = ["serde"] }
dotenvy = "=0.15.7"
jsonwebtoken = "=9.3.1"
serde = { version = "=1.0.229", features = ["derive"] }
serde_json = "=1.0.154"
sqlx = { version = "=0.7.4", default-features = false, features = ["runtime-tokio", "postgres", "chrono", "macros"] }
tokio = { version = "=1.54.1", features = ["full"] }
tower-http = { version = "=0.5.2", features = ["cors"] }
tracing = "=0.1.44"
tracing-subscriber = { version = "=0.3.23", features = ["env-filter"] }
utoipa = { version = "=5.5.0", features = ["axum_extras", "chrono"] }
utoipa-swagger-ui = { version = "=8.0.3", features = ["axum", "vendored"] }
# Not used by the code. It holds the `zip` that the build script of
# utoipa-swagger-ui 8.0.3 unpacks Swagger UI with to a release that the
# script compiles against; later 2.x releases changed the types it names.
zip = { version = "=2.2.0", default-features = false }
