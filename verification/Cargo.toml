[package]
name = "echo_page"
version = "0.1.0"
edition = "2021"
publish = false

[dependencies]
cgi = "*"
failure = "*"
horrorshow = "*"
