[package]
name = "backend_registry"
version = "0.1.0"
edition = "2021"
publish = false

[dependencies]
capstone = "=0.13.0"
cranelift-control = "=0.123.19"
gimli = "=0.32.3"
target-lexicon = { version = "=0.13.5", features = ["arch_z80"] }
