[package]
name = "oximo"
version = "0.1.0"
edition = "2021"
publish = false

[dependencies]
rustc-hash = "=2.1.3"
smol_str = "=0.3.7"
rayon = "=1.12.0"
thiserror = "=2.0.21"
grb = { version = "=3.0.1", features = ["gurobi12"] }
highs = "=2.4.0"
