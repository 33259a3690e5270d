[package]
name = "ipafair_solver"
version = "0.1.0"
edition = "2021"
publish = false

[dependencies]
crustabri = "=1.1.1"
const-cstr = "=0.3.0"
