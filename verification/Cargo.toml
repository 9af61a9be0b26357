[package]
name = "offtake_parser"
version = "0.1.0"
edition = "2021"
publish = false

[dependencies]
chrono = { version = "0.4", default-features = false, features = ["alloc", "std"] }
miette = "5"
nom = "7"
nom_locate = "4"
nom-supreme = "0.8"
strum = "0.24"
strum_macros = "0.24"
thiserror = "1"
