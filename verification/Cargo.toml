[package]
name = "batch_query"
version = "0.1.0"
edition = "2021"
publish = false

[dependencies]
serde_json = "*"
gcp-bigquery-client = "*"
actix-web = "*"
actix-cors = "*"
futures = "*"
log = "*"
log4rs = "*"
anyhow = "*"
