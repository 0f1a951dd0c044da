[package]
name = "xdevs_fmi"
version = "0.1.0"
edition = "2021"
publish = false

[dependencies]
xdevs-no-std = "=0.3.0"
syn = { version = "=2.0.119", default-features = false, features = ["clone-impls", "full", "parsing", "printing"] }
quote = { version = "=1.0.47", default-features = false }
proc-macro2 = { version = "=1.0.107", default-features = false }
prettyplease = "=0.2.37"
