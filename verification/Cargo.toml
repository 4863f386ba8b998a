[package]
name = "yfnutool"
version = "0.1.0"
edition = "2021"
publish = false

[dependencies]
annotate-snippets = "0.11"
anyhow = "1"
bstr = "1"
bumpalo = { version = "3", features = ["boxed", "collections"] }
clap = { version = "4", features = ["derive"] }
clap-verbosity-flag = "3"
env_logger = "0.11"
log = "0.4"
rmp-serde = "1"
tree-sitter = "0.25"
unicode-segmentation = "1"

[dev-dependencies]
tree-sitter-json = "*"
