[package]
name = "svg_bbox"
version = "0.1.0"
edition = "2021"
publish = false

[dependencies]
resvg = "0.37"
kurbo = "0.10"
pathfinder_content = "0.5"
pathfinder_geometry = "0.5"
