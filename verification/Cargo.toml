[package]
name = "rexor"
version = "0.1.0"
edition = "2021"

[dependencies]
clearscreen = "=5.0.0"
colored = "=3.1.1"
rfd = { version = "=0.17.2", default-features = false, features = ["xdg-portal"] }
rpassword = "=7.5.4"
