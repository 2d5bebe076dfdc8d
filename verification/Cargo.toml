[package]
name = "block_links"
version = "0.1.0"
edition = "2021"
publish = false

[dependencies]
handlebars = "=6.4.4"
regex = "=1.13.1"
yarner-lib = "=0.6.1"
