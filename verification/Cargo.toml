[package]
name = "themark"
version = "0.1.0"
edition = "2021"
publish = false

[dependencies]
anathema = "*"
clap = { version = "4", features = ["derive"] }
pulldown-cmark = { version = "*", default-features = false }
syntect = { version = "*", default-features = false, features = ["default-fancy"] }
