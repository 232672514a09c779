[package]
name = "crateplace"
version = "0.1.0"
edition = "2021"
publish = false

[dependencies]
glob = "*"
rustc-demangle = "*"
toml = "*"
toml_edit = "*"
cargo_metadata = "*"
object = "*"
gimli = "*"
serde = { version = "1", features = ["derive"] }
clap = { version = "4", features = ["derive"] }
thiserror = "*"
anstream = "*"
env_logger = "*"
indoc = "*"
