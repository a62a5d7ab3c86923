[package]
name = "pg_typescript"
version = "0.1.0"
edition = "2021"
publish = false

[dependencies]
deno_graph = "0.106"
deno_error = "0.7"
deno_semver = "0.9"
node_resolver = "0.90"
pgrx = "0.16"
serde = { version = "1", features = ["derive"] }
serde_json = "1"
sys_traits = "0.1"
tokio = { version = "1", features = ["rt", "net", "time"] }
ureq = "2"
