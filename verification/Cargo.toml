[package]
name = "nova_r1cs"
version = "0.1.0"
edition = "2021"
publish = false

[dependencies]
ff = "0.13"
once_cell = "1"
pasta_curves = "0.5"
rayon = "1"
serde = { version = "1", features = ["derive"] }

[dev-dependencies]
halo2curves = "0.6"
