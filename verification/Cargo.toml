[package]
name = "which_dylib"
version = "0.1.0"
edition = "2021"
publish = false

[dependencies]
process_path = "*"
walkdir = "2"
target-lexicon = "*"
