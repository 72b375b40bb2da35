[package]
name = "poseidon_opening"
version = "0.1.0"
edition = "2021"
publish = false

[dependencies]
dusk-bls12_381 = { version = "=0.13.0", default-features = false }
derive-hex = "<0.1.3"
dusk-bytes = "<0.1.8"
dusk-hades = "=0.24.1"
