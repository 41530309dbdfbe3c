[package]
name = "adan"
version = "0.1.0"
edition = "2021"
publish = false

[dependencies]
clap = { version = "4", features = ["derive"] }
clearscreen = "*"
inkwell = { version = "0.5", features = ["llvm18-0"] }
num-traits = "0.2"
rand = "0.9"
reqwest = "*"
rustyline = "*"
