[package]
name = "bevy_enum_event"
version = "0.3.2"
edition = "2021"
publish = false

[dependencies]
syn = { version = "2", features = ["full", "visit"] }
quote = "1"
proc-macro2 = "1"
