[package]
name = "densearray"
version = "0.1.0"
edition = "2021"
publish = false

[dependencies]
byteorder = "=1.5.0"
cblas_ffi = "=0.1.0"
libc = "=0.2.191"
sharedmem = "=0.1.1"
