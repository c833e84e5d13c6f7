[package]
name = "lending_risk"
version = "0.1.0"
edition = "2021"
publish = false

[dependencies]
sp-runtime = "=49.0.0"
log = "=0.4.34"
