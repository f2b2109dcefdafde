[package]
name = "miden_note_core"
version = "0.1.0"
edition = "2021"
publish = false

[dependencies]
miden-core = "=0.19.1"
