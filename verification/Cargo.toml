[package]
name = "sql_migration_connector"
version = "0.1.0"
edition = "2021"
publish = false

[dependencies]
async-trait = "=0.1.92"
enumflags2 = "=0.7.12"
quaint = { version = "=0.1.13", default-features = false, features = ["sqlite"] }
