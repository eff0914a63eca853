[package]
name = "fluidsim"
version = "0.1.0"
edition = "2021"
publish = false

[dependencies]
rand = "0.8"
macroquad = "0.3"
egui-macroquad = "0.15"
colorgrad = "0.7"
