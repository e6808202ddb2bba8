[package]
name = "osom_asm_x86_64"
version = "0.1.0"
edition = "2021"
publish = false

[dependencies]
osom_encoders_x86_64 = "*"
