[package]
name = "rust_kernel"
version = "0.1.0"
edition = "2021"
publish = false

[dependencies]
lazy_static = "=1.5.1"
spin = "=0.5.2"
uart_16550 = "=0.8.1"
volatile = "=0.2.7"
x86_64 = "=0.15.5"
