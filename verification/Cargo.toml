[package]
name = "erl_etf"
version = "0.1.0"
edition = "2021"
publish = false

[dependencies]
encoding_rs = "*"
num = "*"
ordered-float = "*"
thiserror = "*"
