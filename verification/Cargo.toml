[package]
name = "slatefs"
version = "0.1.0"
edition = "2021"
publish = false

[dependencies]
anyhow = "1"
async-trait = "0.1"
futures = "0.3"
object_store = "*"
object_store_opendal = "*"
opendal = { version = "*", features = ["services-memory", "services-fs", "services-s3"] }
prost = "*"
slatedb = "*"
slatedb-common = "*"
thiserror = "2"
tokio = { version = "1", features = ["full"] }
