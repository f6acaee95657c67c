[package]
name = "barh"
version = "0.1.0"
edition = "2021"
publish = false

[dependencies]
rusttype = "*"
serde_json = "*"
svgdom = "*"
