[package]
name = "yew_widgets"
version = "0.1.0"
edition = "2021"
publish = false

[dependencies]
chrono = "0.4"
float-cmp = "0.8"
include_dir = "0.6"
js-sys = "0.3"
pulldown-cmark = { version = "0.7", default-features = false }
thiserror = "1"
web-sys = { version = "0.3", features = ["HtmlInputElement", "InputEvent"] }
yew = "0.17"
