[package]
name = "formoxus"
version = "0.1.0"
edition = "2021"
publish = false

[dependencies]
heck = "0.5"
regress = "*"
facet = "*"
serde = { version = "1", features = ["derive"] }
indexmap = "2"
syn = { version = "2", features = ["full", "extra-traits"] }
quote = "1"
proc-macro2 = "1"
darling = "*"
dioxus = { version = "*", default-features = false, features = ["macro", "html", "signals", "hooks"] }
