[package]
name = "autofoam"
version = "0.1.0"
edition = "2021"
publish = false

[dependencies]
clap = { version = "4", features = ["derive"] }
color-eyre = "0.6"
statrs = "*"
vtkio = { version = "0.6", default-features = false, features = ["xml"] }
