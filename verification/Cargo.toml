[package]
name = "module_pipeline"
version = "0.1.0"
edition = "2021"
publish = false

[dependencies]
hyper = { version = "1", default-features = false }
http-body-util = { version = "0.1", default-features = false }
bytes = { version = "1", default-features = false }
