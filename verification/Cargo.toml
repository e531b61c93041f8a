[package]
name = "pretty_thanks"
version = "0.1.0"
edition = "2021"
publish = false

[dependencies]
prettyplease = "=0.2.37"
proc-macro2 = "=1.0.107"
quote = "=1.0.47"
syn = { version = "=2.0.119", features = ["full", "extra-traits"] }
argh = "=0.1.19"
camino = "=1.2.6"
