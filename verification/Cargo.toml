[package]
name = "metaverse_pallets"
version = "0.1.0"
edition = "2021"
publish = false

[dependencies]
sp-core = { version = "*", default-features = false, features = ["std"] }
sp-runtime = { version = "*", default-features = false, features = ["std"] }
sp-std = "*"
frame-support = { version = "*", default-features = false, features = ["std"] }
frame-system = { version = "*", default-features = false, features = ["std"] }
scale-info = { version = "*", default-features = false, features = ["std", "derive"] }
