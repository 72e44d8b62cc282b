[package]
name = "dbpedia_filter"
version = "0.1.0"
edition = "2021"
publish = false

[dependencies]
serde_json = "=1.0.151"
actix-web = { version = "=4.15.0", default-features = false, features = ["macros"] }
reqwest = { version = "=0.13.5", default-features = false, features = ["form"] }
em_filter = "=0.3.0"
