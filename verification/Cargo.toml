[package]
name = "tinymist_query"
version = "0.1.0"
edition = "2021"
publish = false

[dependencies]
typst = "0.11"
ecow = "0.2"
reflexo = { version = "*", default-features = false }
parking_lot = "0.12"
once_cell = "1"
log = "0.4"
lsp-types = "0.95"
pathdiff = "0.2"
rust_iso3166 = "0.1"
rust_iso639 = "*"
