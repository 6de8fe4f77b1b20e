[package]
name = "distant_horizons"
version = "0.1.0"
edition = "2021"
publish = false

[dependencies]
anyhow = "1"
duckdb = "*"
simd_cesu8 = "*"
smol_str = "0.3"
xz2 = "0.1"
