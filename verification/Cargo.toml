[package]
name = "phi_save_codec"
version = "0.1.0"
edition = "2021"
publish = false

[dependencies]
bitvec = "=1.1.1"
multi_value_gen = "=0.1.1"
rmp-serde = "=1.3.1"
serde = { version = "=1.0.229", features = ["derive"] }
syn = { version = "=2.0.119", features = ["full"] }
walrus = "=0.24.5"

[dev-dependencies]
shua_struct = { version = "=0.5.2", features = ["all"] }
