[package]
name = "query_plan"
version = "0.1.0"
edition = "2021"
publish = false

[dependencies]
sqlite3-parser = "0.13"
