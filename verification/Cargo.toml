[package]
name = "aide"
version = "0.1.0"
edition = "2021"
publish = false

[dependencies]
ropey = "1.6"
egui = "0.32"
eframe = { version = "0.32", default-features = false, features = ["glow", "x11", "default_fonts"] }
rfd = { version = "0.15", default-features = false, features = ["gtk3"] }
lsp-types = "0.97"
serde = { version = "1", features = ["derive"] }
serde_json = "1"
url = "2"
portable-pty = "0.9"
tree-sitter = "0.25"
tree-sitter-highlight = "0.25"
tree-sitter-rust = "0.24"
env_logger = "0.11"

[dev-dependencies]
tempfile = "3"
