[package]
name = "sling"
version = "0.1.0"
edition = "2021"
publish = false

[dependencies]
async-trait = "*"
aws-config = "*"
aws-sdk-s3 = "*"
bytes = "*"
clap = { version = "*", features = ["derive"] }
dirs = "*"
google-storage1 = "*"
hyper = "*"
hyper-rustls = "*"
mime = "*"
serde = { version = "*", features = ["derive"] }
serde_yaml = "*"
simple-error = "*"
tempdir = "*"
tokio = { version = "*", features = ["macros", "rt-multi-thread"] }
urlencoding = "*"
yup-oauth2 = "*"
