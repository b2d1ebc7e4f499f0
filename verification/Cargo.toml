[package]
name = "two_face"
version = "0.5.0"
edition = "2021"
publish = false

[dependencies]
askalono = "*"
cargo-lock = "*"
home = "*"
once_cell = "1"
serde = { version = "1", features = ["derive"] }
syntect = { version = "5", default-features = false, features = ["default-syntaxes", "default-themes", "html", "regex-fancy", "dump-create", "dump-load", "yaml-load", "plist-load"] }
tempfile = "3"
toml = "*"
twox-hash = "*"
walkdir = "2"
xshell = "*"
