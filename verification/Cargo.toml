[package]
name = "note_automata"
version = "0.1.0"
edition = "2021"
publish = false

[dependencies]
rand = "0.7"
nannou = "0.14"
cpal = "0.11"
usfx = "0.1"
