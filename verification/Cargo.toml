[package]
name = "nage"
version = "0.1.0"
edition = "2021"
publish = false

[dependencies]
anyhow = "1"
camino = "1"
clap = { version = "4", features = ["derive"] }
crossterm = "0.26"
directories = "5"
discord-rich-presence = "0.2"
format_serde_error = "0.3"
itertools = "0.10"
memmap = "0.7"
open = "4"
piz = "*"
playback-rs = "*"
rand = "0.8"
requestty = "0.5"
result = "1"
rlua = "0.19"
rustyline = "*"
sanitize-filename = "*"
semver = { version = "1", features = ["serde"] }
serde = { version = "1", features = ["derive"] }
serde_yaml = "0.9"
snailshell = "*"
strum = { version = "0.24", features = ["derive"] }
termimad = "*"
tinytemplate = "1"
unicode-truncate = "*"
walkdir = "2"
