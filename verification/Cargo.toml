[package]
name = "feagi_data_deserializer"
version = "0.1.0"
edition = "2021"
publish = false

[dependencies]
feagi_data_serialization = "=0.0.50-beta.49"
feagi_data_structures = "=0.0.50-beta.49"
godot = "0.2"
lz4 = "1"
memmap2 = "0.9"
rayon = "1"
serde = { version = "1", features = ["derive"] }
serde-wasm-bindgen = "0.6"
wasm-bindgen = "0.2"
