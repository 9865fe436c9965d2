[package]
name = "midi_io"
version = "0.1.2"
edition = "2021"
publish = false

[dependencies]
futures-channel = "0.3"
futures-util = "0.3"
libc = "0.2"
alsa = "0.9"
thiserror = "2"
