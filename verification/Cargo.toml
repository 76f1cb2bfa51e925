[package]
name = "columnar_exchange"
version = "0.1.0"
edition = "2021"
publish = false

[dependencies]
arrow = { version = "*", default-features = false, features = ["ffi"] }
arrow-schema = "*"
async-trait = "*"
jni = "*"
lance-core = { version = "*", default-features = false }
lance-file = { version = "*", default-features = false }
lance-io = { version = "*", default-features = false }
object_store = { version = "*", default-features = false }
tokio = { version = "*", default-features = false, features = ["rt-multi-thread"] }
