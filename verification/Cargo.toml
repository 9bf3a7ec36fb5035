[package]
name = "pane_kernel"
version = "0.1.0"
edition = "2021"
publish = false

[dependencies]
pc-keyboard = "=0.8.0"
pluggable_interrupt_os = "=0.5.3"
