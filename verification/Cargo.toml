[package]
name = "web_framework_markdown"
version = "0.1.0"
edition = "2021"
publish = false

[dependencies]
pulldown-cmark = { version = "=0.13.5", default-features = false }
syntect = { version = "=5.3.0", default-features = false, features = ["default-fancy"] }
katex-rs = "=0.3.0"
dioxus = { version = "0.7", default-features = false, features = ["macro", "html", "signals", "hooks", "document"] }
