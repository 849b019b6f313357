[package]
name = "opensus"
version = "0.1.0"
edition = "2021"
publish = false

[dependencies]
rand = "0.9"
serde = { version = "1", features = ["derive"] }
bincode = "1"
renet2 = { version = "*", default-features = false }
renet2_netcode = { version = "*", default-features = false, features = ["native_transport"] }
