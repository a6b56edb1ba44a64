[package]
name = "twgraph_shader"
version = "0.1.0"
edition = "2021"
publish = false

[dependencies]
shaderc = "*"
