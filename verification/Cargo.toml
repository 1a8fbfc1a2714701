[package]
name = "dbase"
version = "0.6.0"
edition = "2021"
publish = false

[dependencies]
byteorder = "1"
time = "0.3"
encoding_rs = "0.8"
codepage = "0.1"
