[package]
name = "nightwatch_updater"
version = "0.1.0"
edition = "2021"
publish = false

[dependencies]
ureq = "2"
zip = "*"
fs_extra = "*"
tempfile = "*"
