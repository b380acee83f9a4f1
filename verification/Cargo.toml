[package]
name = "scylla"
version = "0.1.0"
edition = "2021"
publish = false

[dependencies]
scylla-cql = "1"
uuid = "1"
thiserror = "2"
openssl = "0.10"
