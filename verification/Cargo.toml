[package]
name = "spellabet"
version = "0.1.0"
edition = "2021"
publish = false

[dependencies]
convert_case = "*"
anyhow = "*"
clap = { version = "*", features = ["derive", "env"] }
clap_complete = "*"
clap_mangen = "*"
is-terminal = "*"
