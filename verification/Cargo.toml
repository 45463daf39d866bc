[package]
name = "pdf_viewer"
version = "0.1.0"
edition = "2021"
publish = false

[dependencies]
hayro = "0.7"
log = "0.4"
