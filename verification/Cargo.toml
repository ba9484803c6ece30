[package]
name = "quickfix_native"
version = "0.1.0"
edition = "2021"
publish = false

[dependencies]
quick-xml = "=0.37.5"
convert_case = "=0.7.1"
bytes = "=1.12.1"
thiserror = "=2.0.21"
