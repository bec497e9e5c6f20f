[package]
name = "purchases_aggregator"
version = "0.1.0"
edition = "2021"
publish = false

[dependencies]
kafka = { version = "*", default-features = false }
apache-avro = "*"
schema_registry_converter = { version = "*", default-features = false, features = ["blocking"] }
