[package]
name = "py_codegen"
version = "0.1.0"
edition = "2021"
publish = false

[dependencies]
log = "*"
proc-macro2 = "*"
pyo3 = "*"
quote = "*"
serde = { version = "*", features = ["derive"] }
