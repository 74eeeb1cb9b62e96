[package]
name = "image_resize"
version = "0.1.0"
edition = "2021"
publish = false
